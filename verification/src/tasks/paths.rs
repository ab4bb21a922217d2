//! Path construction helpers. All task-store data lives under
//! `<prefix>/<plan>/...`.
use vstd::prelude::*;

use crate::tasks::types::TaskId;
use crate::text::{owned, push_char};

verus! {

/// `prefix/plan`.
pub open spec fn spec_plan_root(prefix: Seq<char>, plan: Seq<char>) -> Seq<char> {
    prefix + seq!['/'] + plan
}

/// `prefix/plan/_meta`.
pub open spec fn spec_plan_meta(prefix: Seq<char>, plan: Seq<char>) -> Seq<char> {
    spec_plan_root(prefix, plan) + seq!['/', '_', 'm', 'e', 't', 'a']
}

/// `prefix/plan/<task id>`.
pub open spec fn spec_task_path(prefix: Seq<char>, plan: Seq<char>, id: Seq<char>) -> Seq<char> {
    spec_plan_root(prefix, plan) + seq!['/'] + id
}

/// Root of a plan — holds `_meta` and task entries.
pub fn plan_root(prefix: &str, plan: &str) -> (r: String)
    ensures
        r@ == spec_plan_root(prefix@, plan@),
{
    let mut s = owned(prefix);
    push_char(&mut s, '/');
    s.append(plan);
    s
}

/// Path to a plan's `_meta` entry (the `Plan` record).
pub fn plan_meta(prefix: &str, plan: &str) -> (r: String)
    ensures
        r@ == spec_plan_meta(prefix@, plan@),
{
    let mut s = plan_root(prefix, plan);
    push_char(&mut s, '/');
    push_char(&mut s, '_');
    push_char(&mut s, 'm');
    push_char(&mut s, 'e');
    push_char(&mut s, 't');
    push_char(&mut s, 'a');
    proof {
        assert(s@ =~= spec_plan_meta(prefix@, plan@));
    }
    s
}

/// Path to a task entry inside a plan (the `Task` record).
pub fn task(prefix: &str, plan: &str, id: &TaskId) -> (r: String)
    ensures
        r@ == spec_task_path(prefix@, plan@, id.0@),
{
    let mut s = plan_root(prefix, plan);
    push_char(&mut s, '/');
    s.append(id.as_str());
    s
}

/// Reserved key under `<plan>` that holds plan-level metadata.
pub const META_KEY: &'static str = "_meta";

} // verus!
