//! The change log of a task store: every write is recorded as a plan
//! change by the store's agent, with a description of what it did, so a
//! log or blame view can pick plan work out and attribute it.
use vstd::prelude::*;

use crate::tasks::types::Priority;
use crate::text::owned;

verus! {

/// The intent a change is recorded under. The task store writes plan
/// changes only.
#[derive(Debug, Clone, Copy, PartialEq, Eq, Structural)]
pub enum IntentCategory {
    Plan,
}

/// One change the store wrote: the ref it went to, the acting agent, its
/// intent and what it did.
#[derive(Debug)]
pub struct PlanCommit {
    pub ref_name: String,
    pub agent_id: String,
    pub category: IntentCategory,
    pub description: String,
}

/// `c` records a plan change to ref `r` by `agent`, described by
/// `description`.
pub open spec fn commit_of(c: PlanCommit, r: Seq<char>, agent: String, description: Seq<char>) -> bool {
    &&& c.ref_name@ == r
    &&& c.agent_id == agent
    &&& c.category == IntentCategory::Plan
    &&& c.description@ == description
}

/// `head` followed by the task's place, `plan/id`.
pub open spec fn on_task(head: Seq<char>, plan: Seq<char>, id: Seq<char>) -> Seq<char> {
    head + plan + "/"@ + id
}

/// The name a priority is written under in a description.
pub open spec fn priority_name(p: Priority) -> Seq<char> {
    match p {
        Priority::Low => "Low"@,
        Priority::Medium => "Medium"@,
        Priority::High => "High"@,
        Priority::Critical => "Critical"@,
    }
}

/// What setting a task's priority is described as.
pub open spec fn set_priority_description(p: Priority, plan: Seq<char>, id: Seq<char>) -> Seq<char> {
    on_task("Set priority "@ + priority_name(p) + " on "@, plan, id)
}

/// What assigning a task is described as.
pub open spec fn assign_description(plan: Seq<char>, id: Seq<char>, agent: Seq<char>) -> Seq<char> {
    on_task("Assign "@, plan, id) + " to "@ + agent
}

/// `head` followed by `plan/id`.
pub fn describe_task(head: &str, plan: &str, id: &str) -> (r: String)
    ensures
        r@ == on_task(head@, plan@, id@),
{
    let mut s = owned(head);
    s.append(plan);
    s.append("/");
    s.append(id);
    s
}

/// `head` followed by `name`.
pub fn describe_plan(head: &str, name: &str) -> (r: String)
    ensures
        r@ == head@ + name@,
{
    let mut s = owned(head);
    s.append(name);
    s
}

pub fn priority_text(p: Priority) -> (r: &'static str)
    ensures
        r@ == priority_name(p),
{
    match p {
        Priority::Low => "Low",
        Priority::Medium => "Medium",
        Priority::High => "High",
        Priority::Critical => "Critical",
    }
}

/// The description of setting a task's priority.
pub fn describe_set_priority(p: Priority, plan: &str, id: &str) -> (r: String)
    ensures
        r@ == set_priority_description(p, plan@, id@),
{
    let mut head = owned("Set priority ");
    head.append(priority_text(p));
    head.append(" on ");
    let r = describe_task(head.as_str(), plan, id);
    r
}

/// The description of assigning a task to `agent`.
pub fn describe_assign(plan: &str, id: &str, agent: &str) -> (r: String)
    ensures
        r@ == assign_description(plan@, id@, agent@),
{
    let mut s = describe_task("Assign ", plan, id);
    s.append(" to ");
    s.append(agent);
    s
}

} // verus!
