//! Properties of the task store that span its operations.
use vstd::prelude::*;

use crate::keyed::{
    insert_pos, lemma_index_of_range, lemma_insert_pos_range, lemma_index_of_same_keys, lemma_sorted_distinct,
    lemma_sorted_index_of, sorted_by,
};
use crate::tasks::error::TaskStoreError;
use crate::tasks::store::{
    add_task_post, close_plan_post, complete_task_post, abandon_task_post, is_next,
    max_task_number, id_number, missing_from, ordered_plans, pending_in, plan_index, plan_key,
    plan_metas, satisfied_in, start_task_post, task_index, task_key, tasks_in, with_tasks,
    create_plan_post, PlanEntry, TaskStore,
};
use crate::tasks::types::{
    task_id_number, task_matches, AddTaskOptions, Plan, PlanStatus, Priority, Proof, Task, TaskId,
    TaskStatus,
};
use crate::text::seq_blank;
use crate::time::Timestamp;

verus! {

/// Two plan lists with the same names position by position find every
/// name at the same position.
proof fn lemma_same_plan_names(ps: Seq<PlanEntry>, ps2: Seq<PlanEntry>, i: int, name: Seq<char>)
    requires
        ps2.len() == ps.len(),
        0 <= i < ps.len(),
        forall|j: int| 0 <= j < ps.len() && j != i ==> #[trigger] ps2[j] == ps[j],
        ps2[i].meta.name@ == ps[i].meta.name@,
    ensures
        plan_index(ps2, name) == plan_index(ps, name),
{
    assert forall|j: int| 0 <= j < ps2.len() implies plan_key()(#[trigger] ps2[j]) == plan_key()(
        ps[j],
    ) by {
        if j != i {
            assert(ps2[j] == ps[j]);
        }
    }
    lemma_index_of_same_keys(ps2, ps, plan_key(), name);
}

/// A plan that `create_plan` reports created is what `get_plan` then
/// returns for its name.
pub proof fn created_plan_is_found(
    old: TaskStore,
    new: TaskStore,
    r: Seq<char>,
    name: Seq<char>,
    description: Option<String>,
    now: Timestamp,
    res: Result<Plan, TaskStoreError>,
)
    requires
        new.wf(),
        create_plan_post(old, new, r, name, description, now, res),
        res is Ok,
    ensures
        res matches Ok(p) && plan_index(new.plans_of(r), name) >= 0 && new.plans_of(r)[plan_index(
            new.plans_of(r),
            name,
        )].meta == p,
{
    let ps2 = new.plans_of(r);
    let k = insert_pos(old.plans_of(r), plan_key(), name);
    lemma_insert_pos_range(old.plans_of(r), plan_key(), name);
    new.lemma_wf_plans(r);
    lemma_sorted_index_of(ps2, plan_key(), k);
}

/// A task that `add_task` reports added is what `get_task` then returns
/// for its id.
pub proof fn added_task_is_found(
    old: TaskStore,
    new: TaskStore,
    r: Seq<char>,
    plan: Seq<char>,
    title: Seq<char>,
    priority: Priority,
    parent_id: Option<TaskId>,
    blocked_by: Seq<TaskId>,
    assigned_to: Option<String>,
    options: AddTaskOptions,
    now: Timestamp,
    res: Result<Task, TaskStoreError>,
)
    requires
        new.wf(),
        add_task_post(
            old,
            new,
            r,
            plan,
            title,
            priority,
            parent_id,
            blocked_by,
            assigned_to,
            options,
            now,
            res,
        ),
        res is Ok,
    ensures
        res matches Ok(t) && task_index(tasks_in(new.plans_of(r), plan), t.id.0@) >= 0
            && task_matches(
            t,
            tasks_in(new.plans_of(r), plan)[task_index(tasks_in(new.plans_of(r), plan), t.id.0@)],
        ),
{
    let ps = old.plans_of(r);
    let ps2 = new.plans_of(r);
    let i = plan_index(ps, plan);
    let ts = tasks_in(ps, plan);
    let n = max_task_number(ts) + 1;
    let k = insert_pos(ts, task_key(), crate::tasks::types::task_id_text(n));
    lemma_index_of_range(ps, plan_key(), plan);
    lemma_same_plan_names(ps, ps2, i, plan);
    new.lemma_wf_plans(r);
    let ts2 = ps2[i].tasks@;
    assert(sorted_by(ts2, task_key()));
    lemma_insert_pos_range(ts, task_key(), crate::tasks::types::task_id_text(n));
    lemma_sorted_index_of(ts2, task_key(), k);
}

/// Ids are handed out in increasing order: the number of a new task's id
/// is one past the largest number of any task already in the plan.
pub proof fn new_task_ids_increase(
    old: TaskStore,
    new: TaskStore,
    r: Seq<char>,
    plan: Seq<char>,
    title: Seq<char>,
    priority: Priority,
    parent_id: Option<TaskId>,
    blocked_by: Seq<TaskId>,
    assigned_to: Option<String>,
    options: AddTaskOptions,
    now: Timestamp,
    res: Result<Task, TaskStoreError>,
    k: int,
)
    requires
        add_task_post(
            old,
            new,
            r,
            plan,
            title,
            priority,
            parent_id,
            blocked_by,
            assigned_to,
            options,
            now,
            res,
        ),
        max_task_number(tasks_in(old.plans_of(r), plan)) < u32::MAX,
        res is Ok,
        0 <= k < tasks_in(old.plans_of(r), plan).len(),
    ensures
        res matches Ok(t) && task_id_number(t.id.0@) matches Some(n) && id_number(
            tasks_in(old.plans_of(r), plan)[k],
        ) < n,
{
    let ts = tasks_in(old.plans_of(r), plan);
    let n = max_task_number(ts) + 1;
    crate::tasks::types::task_id_number_roundtrip(n as u32);
    crate::tasks::store::lemma_max_task_number(ts, k);
}

/// Completing a task leaves every plan record as it was: finishing the
/// last open task does not close the plan.
pub proof fn completing_leaves_plans(
    old: TaskStore,
    new: TaskStore,
    r: Seq<char>,
    plan: Seq<char>,
    id: TaskId,
    proof: Proof,
    now: Timestamp,
    res: Result<Task, TaskStoreError>,
)
    requires
        complete_task_post(old, new, r, plan, id, proof, now, res),
    ensures
        plan_metas(new.plans_of(r)) == plan_metas(old.plans_of(r)),
{
    lemma_task_change_keeps_metas(old.plans_of(r), new.plans_of(r));
}

/// Abandoning a task leaves every plan record as it was.
pub proof fn abandoning_leaves_plans(
    old: TaskStore,
    new: TaskStore,
    r: Seq<char>,
    plan: Seq<char>,
    id: TaskId,
    reason: Seq<char>,
    now: Timestamp,
    res: Result<Task, TaskStoreError>,
)
    requires
        abandon_task_post(old, new, r, plan, id, reason, now, res),
    ensures
        plan_metas(new.plans_of(r)) == plan_metas(old.plans_of(r)),
{
    lemma_task_change_keeps_metas(old.plans_of(r), new.plans_of(r));
}

proof fn lemma_task_change_keeps_metas(ps: Seq<PlanEntry>, ps2: Seq<PlanEntry>)
    requires
        ps2 == ps || exists|i: int, ts: Seq<Task>| #[trigger] with_tasks(ps, ps2, i, ts),
    ensures
        plan_metas(ps2) == plan_metas(ps),
{
    if ps2 != ps {
        let (i, ts) = choose|i: int, ts: Seq<Task>| #[trigger] with_tasks(ps, ps2, i, ts);
        assert forall|j: int| 0 <= j < ps.len() implies ps2[j].meta == ps[j].meta by {
            if j != i {
                assert(ps2[j] == ps[j]);
            }
        }
        assert(plan_metas(ps2) =~= plan_metas(ps));
    }
}

/// Closing a closed plan is idempotent: whatever the second summary, it
/// returns the plan as the first close left it and changes nothing.
pub proof fn close_plan_is_idempotent(
    s0: TaskStore,
    s1: TaskStore,
    s2: TaskStore,
    r: Seq<char>,
    name: Seq<char>,
    summary1: Seq<char>,
    summary2: Seq<char>,
    now1: Timestamp,
    now2: Timestamp,
    res1: Result<Plan, TaskStoreError>,
    res2: Result<Plan, TaskStoreError>,
)
    requires
        s1.wf(),
        close_plan_post(s0, s1, r, name, summary1, now1, res1),
        close_plan_post(s1, s2, r, name, summary2, now2, res2),
        res1 is Ok,
        !seq_blank(summary2),
    ensures
        res2 == res1,
        s2 == s1,
{
    let ps = s0.plans_of(r);
    let i = plan_index(ps, name);
    lemma_index_of_range(ps, plan_key(), name);
    if ps[i].meta.status != PlanStatus::Completed {
        let ps1 = s1.plans_of(r);
        assert(ps1.len() == ps.len());
        lemma_same_plan_names(ps, ps1, i, name);
    }
}

/// A task that `start_task` starts had every blocker done.
pub proof fn started_task_had_blockers_done(
    old: TaskStore,
    new: TaskStore,
    r: Seq<char>,
    plan: Seq<char>,
    id: TaskId,
    now: Timestamp,
    res: Result<Task, TaskStoreError>,
)
    requires
        start_task_post(old, new, r, plan, id, now, res),
        res is Ok,
    ensures
        ({
            let ts = tasks_in(old.plans_of(r), plan);
            let t = ts[task_index(ts, id.0@)];
            &&& task_index(ts, id.0@) >= 0
            &&& t.status == TaskStatus::Pending
            &&& forall|b: int|
                0 <= b < t.blocked_by@.len() ==> satisfied_in(ts)(#[trigger] t.blocked_by@[b])
        }),
{
    let ts = tasks_in(old.plans_of(r), plan);
    let t = ts[task_index(ts, id.0@)];
    let bs = t.blocked_by@;
    assert forall|b: int| 0 <= b < bs.len() implies satisfied_in(ts)(#[trigger] bs[b]) by {
        if missing_from(ts)(bs[b]) {
            bs.lemma_filter_contains(missing_from(ts), b);
            bs.lemma_filter_len(missing_from(ts));
        } else if pending_in(ts)(bs[b]) {
            bs.lemma_filter_contains(pending_in(ts), b);
            bs.lemma_filter_len(pending_in(ts));
        }
    }
}

/// The task `next_task_for` picks is one that `start_task` accepts: it is
/// pending and none of its blockers is missing or unfinished.
pub proof fn next_task_is_startable(
    ts: Seq<Task>,
    k: int,
    assigned_to: Option<&str>,
    include_unassigned: bool,
)
    requires
        is_next(ts, k, assigned_to, include_unassigned),
    ensures
        ts[k].status == TaskStatus::Pending,
        ts[k].blocked_by@.filter(missing_from(ts)).len() == 0,
        ts[k].blocked_by@.filter(pending_in(ts)).len() == 0,
{
    let bs = ts[k].blocked_by@;
    let f1 = bs.filter(missing_from(ts));
    let f2 = bs.filter(pending_in(ts));
    if f1.len() > 0 {
        bs.lemma_filter_pred(missing_from(ts), 0);
        assert(f1.contains(f1[0]));
        bs.lemma_filter_contains_rev(missing_from(ts), f1[0]);
        let m = choose|m: int| 0 <= m < bs.len() && bs[m] == f1[0];
        assert(satisfied_in(ts)(bs[m]));
    }
    if f2.len() > 0 {
        bs.lemma_filter_pred(pending_in(ts), 0);
        assert(f2.contains(f2[0]));
        bs.lemma_filter_contains_rev(pending_in(ts), f2[0]);
        let m = choose|m: int| 0 <= m < bs.len() && bs[m] == f2[0];
        assert(satisfied_in(ts)(bs[m]));
    }
}

/// After a plan is deleted, no plan of that name is left under the ref.
pub proof fn deleted_plan_is_gone(ps: Seq<PlanEntry>, name: Seq<char>)
    requires
        ordered_plans(ps),
        plan_index(ps, name) >= 0,
    ensures
        plan_index(ps.remove(plan_index(ps, name)), name) < 0,
{
    let i = plan_index(ps, name);
    lemma_index_of_range(ps, plan_key(), name);
    let t = ps.remove(i);
    lemma_index_of_range(t, plan_key(), name);
    if plan_index(t, name) >= 0 {
        let j = plan_index(t, name);
        let j2 = if j < i {
            j
        } else {
            j + 1
        };
        assert(t[j] == ps[j2]);
        lemma_sorted_distinct(ps, plan_key(), i, j2);
    }
}

} // verus!
