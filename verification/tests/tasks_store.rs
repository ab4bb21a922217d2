use agentstategraph_substrate::tasks::error::TaskStoreError;
use agentstategraph_substrate::tasks::store::TaskStore;
use agentstategraph_substrate::tasks::types::{
    AddTaskOptions, OnCompleteHook, PlanStatus, Priority, Proof, ProofKind, Task, TaskId,
    TaskStatus,
};
use agentstategraph_substrate::tasks::verify::{NoopVerifier, Verifier, VerifyResult};

fn make_store(prefix: &str) -> TaskStore {
    TaskStore::new(prefix, "test-agent")
}

fn add(store: &mut TaskStore, plan: &str, title: &str, priority: Priority) -> Task {
    store
        .add_task("main", plan, title, priority, None, vec![], None)
        .unwrap()
}

fn add_child(store: &mut TaskStore, plan: &str, title: &str, parent: &TaskId) -> Task {
    store
        .add_task("main", plan, title, Priority::Medium, Some(parent.clone()), vec![], None)
        .unwrap()
}

fn add_blocked(store: &mut TaskStore, plan: &str, title: &str, p: Priority, by: &TaskId) -> Task {
    store
        .add_task("main", plan, title, p, None, vec![by.clone()], None)
        .unwrap()
}

fn finish(store: &mut TaskStore, plan: &str, id: &TaskId, proof: Proof) {
    store.start_task("main", plan, id).unwrap();
    store.complete_task("main", plan, id, proof).unwrap();
}

// ---- basics --------------------------------------------------------------

#[test]
fn create_and_fetch_plan() {
    let mut store = make_store("/plans");
    let plan = store
        .create_plan("main", "website-v2", Some("Brand pivot".into()))
        .unwrap();
    assert_eq!(plan.name, "website-v2");
    assert_eq!(plan.status, PlanStatus::Active);
    assert_eq!(plan.created_by, "test-agent");

    let fetched = store.get_plan("main", "website-v2").unwrap();
    assert_eq!(fetched, plan);
}

#[test]
fn create_plan_twice_errors() {
    let mut store = make_store("/plans");
    store.create_plan("main", "p", None).unwrap();
    let err = store.create_plan("main", "p", None).unwrap_err();
    assert!(matches!(err, TaskStoreError::PlanAlreadyExists(_)));
}

#[test]
fn list_plans_returns_all() {
    let mut store = make_store("/plans");
    store.create_plan("main", "alpha", None).unwrap();
    store.create_plan("main", "beta", None).unwrap();
    store.create_plan("main", "gamma", None).unwrap();
    let plans = store.list_plans("main").unwrap();
    assert_eq!(plans.len(), 3);
    let names: Vec<_> = plans.iter().map(|p| p.name.as_str()).collect();
    assert!(names.contains(&"alpha"));
    assert!(names.contains(&"beta"));
    assert!(names.contains(&"gamma"));
}

#[test]
fn list_plans_empty_when_unused() {
    let store = make_store("/plans");
    let plans = store.list_plans("main").unwrap();
    assert!(plans.is_empty());
}

#[test]
fn plans_live_per_ref() {
    let mut store = make_store("/plans");
    store.create_plan("main", "p", None).unwrap();
    assert!(store.list_plans("feature").unwrap().is_empty());
    assert!(matches!(
        store.get_plan("feature", "p"),
        Err(TaskStoreError::PlanNotFound(_))
    ));
    store.create_plan("feature", "p", None).unwrap();
    assert_eq!(store.list_plans("main").unwrap().len(), 1);
}

#[test]
fn add_task_assigns_monotonic_ids() {
    let mut store = make_store("/plans");
    store.create_plan("main", "p", None).unwrap();
    let t1 = add(&mut store, "p", "A", Priority::Medium);
    let t2 = add(&mut store, "p", "B", Priority::Medium);
    let t3 = add(&mut store, "p", "C", Priority::Medium);
    assert_eq!(t1.id.as_str(), "t-001");
    assert_eq!(t2.id.as_str(), "t-002");
    assert_eq!(t3.id.as_str(), "t-003");
}

#[test]
fn list_tasks_sorted_and_excludes_meta() {
    let mut store = make_store("/plans");
    store.create_plan("main", "p", None).unwrap();
    add(&mut store, "p", "first", Priority::Low);
    add(&mut store, "p", "second", Priority::High);
    let tasks = store.list_tasks("main", "p").unwrap();
    assert_eq!(tasks.len(), 2);
    assert_eq!(tasks[0].id.as_str(), "t-001");
    assert_eq!(tasks[1].id.as_str(), "t-002");
}

#[test]
fn get_task_missing_returns_not_found() {
    let mut store = make_store("/plans");
    store.create_plan("main", "p", None).unwrap();
    let err = store.get_task("main", "p", &TaskId::new(99)).unwrap_err();
    assert!(matches!(err, TaskStoreError::TaskNotFound { .. }));
}

#[test]
fn archive_plan_sets_status_archived() {
    let mut store = make_store("/plans");
    store.create_plan("main", "p", None).unwrap();
    let plan = store.archive_plan("main", "p").unwrap();
    assert_eq!(plan.status, PlanStatus::Archived);
    assert!(plan.archived_at.is_some());
}

#[test]
fn delete_plan_removes_tasks() {
    let mut store = make_store("/plans");
    store.create_plan("main", "p", None).unwrap();
    add(&mut store, "p", "x", Priority::Medium);
    store.delete_plan("main", "p").unwrap();
    let err = store.get_plan("main", "p").unwrap_err();
    assert!(matches!(err, TaskStoreError::PlanNotFound(_)));
    assert!(matches!(
        store.list_tasks("main", "p"),
        Err(TaskStoreError::PlanNotFound(_))
    ));
}

#[test]
fn delete_missing_plan_errors() {
    let mut store = make_store("/plans");
    assert!(matches!(
        store.delete_plan("main", "ghost"),
        Err(TaskStoreError::PlanNotFound(_))
    ));
}

#[test]
fn add_task_to_missing_plan_errors() {
    let mut store = make_store("/plans");
    let err = store
        .add_task("main", "nope", "x", Priority::Medium, None, vec![], None)
        .unwrap_err();
    assert!(matches!(err, TaskStoreError::PlanNotFound(_)));
}

#[test]
fn set_priority_persists() {
    let mut store = make_store("/plans");
    store.create_plan("main", "p", None).unwrap();
    let task = add(&mut store, "p", "x", Priority::Low);
    store
        .set_priority("main", "p", &task.id, Priority::Critical)
        .unwrap();
    let fetched = store.get_task("main", "p", &task.id).unwrap();
    assert_eq!(fetched.priority, Priority::Critical);
    assert_eq!(fetched.status, TaskStatus::Pending);
}

#[test]
fn task_ids_lists_in_order() {
    let mut store = make_store("/plans");
    store.create_plan("main", "p", None).unwrap();
    add(&mut store, "p", "a", Priority::Low);
    add(&mut store, "p", "b", Priority::Low);
    let ids = store.task_ids("main", "p").unwrap();
    assert_eq!(ids, vec![TaskId::new(1), TaskId::new(2)]);
}

// ---- state machine -------------------------------------------------------

#[test]
fn pending_to_in_progress_to_done() {
    let mut store = make_store("/plans");
    store.create_plan("main", "p", None).unwrap();
    let task = add(&mut store, "p", "x", Priority::Medium);
    assert_eq!(task.status, TaskStatus::Pending);

    let task = store.start_task("main", "p", &task.id).unwrap();
    assert_eq!(task.status, TaskStatus::InProgress);
    assert!(task.started_at.is_some());
    assert_eq!(task.started_by.as_deref(), Some("test-agent"));

    let task = store
        .complete_task("main", "p", &task.id, Proof::commit("abc"))
        .unwrap();
    assert_eq!(task.status, TaskStatus::Done);
    assert!(task.completed_at.is_some());
    assert_eq!(task.completed_by.as_deref(), Some("test-agent"));
    assert!(task.proof.is_some());
}

#[test]
fn abandon_from_pending() {
    let mut store = make_store("/plans");
    store.create_plan("main", "p", None).unwrap();
    let task = add(&mut store, "p", "x", Priority::Low);
    let task = store
        .abandon_task("main", "p", &task.id, "deprioritized")
        .unwrap();
    assert_eq!(task.status, TaskStatus::Abandoned);
    assert_eq!(task.abandoned_reason.as_deref(), Some("deprioritized"));
}

#[test]
fn abandon_from_in_progress() {
    let mut store = make_store("/plans");
    store.create_plan("main", "p", None).unwrap();
    let task = add(&mut store, "p", "x", Priority::Low);
    store.start_task("main", "p", &task.id).unwrap();
    let task = store
        .abandon_task("main", "p", &task.id, "blocked externally")
        .unwrap();
    assert_eq!(task.status, TaskStatus::Abandoned);
}

#[test]
fn abandon_requires_reason() {
    let mut store = make_store("/plans");
    store.create_plan("main", "p", None).unwrap();
    let task = add(&mut store, "p", "x", Priority::Low);
    let err = store.abandon_task("main", "p", &task.id, "   ").unwrap_err();
    assert!(matches!(err, TaskStoreError::ReasonRequired));
}

#[test]
fn cannot_complete_without_starting() {
    let mut store = make_store("/plans");
    store.create_plan("main", "p", None).unwrap();
    let task = add(&mut store, "p", "x", Priority::Low);
    let err = store
        .complete_task("main", "p", &task.id, Proof::text("ok"))
        .unwrap_err();
    assert!(matches!(err, TaskStoreError::InvalidTransition { .. }));
}

#[test]
fn cannot_restart_done_task() {
    let mut store = make_store("/plans");
    store.create_plan("main", "p", None).unwrap();
    let task = add(&mut store, "p", "x", Priority::Low);
    finish(&mut store, "p", &task.id, Proof::commit("abc"));
    let err = store.start_task("main", "p", &task.id).unwrap_err();
    assert!(matches!(err, TaskStoreError::InvalidTransition { .. }));
}

#[test]
fn cannot_abandon_done_task() {
    let mut store = make_store("/plans");
    store.create_plan("main", "p", None).unwrap();
    let task = add(&mut store, "p", "x", Priority::Low);
    finish(&mut store, "p", &task.id, Proof::commit("abc"));
    let err = store
        .abandon_task("main", "p", &task.id, "too late")
        .unwrap_err();
    assert!(matches!(err, TaskStoreError::InvalidTransition { .. }));
}

#[test]
fn transitions_on_missing_task_report_not_found() {
    let mut store = make_store("/plans");
    store.create_plan("main", "p", None).unwrap();
    let ghost = TaskId::new(5);
    assert!(matches!(
        store.start_task("main", "p", &ghost),
        Err(TaskStoreError::TaskNotFound { .. })
    ));
    assert!(matches!(
        store.complete_task("main", "p", &ghost, Proof::text("x")),
        Err(TaskStoreError::TaskNotFound { .. })
    ));
    assert!(matches!(
        store.abandon_task("main", "p", &ghost, "why"),
        Err(TaskStoreError::TaskNotFound { .. })
    ));
}

// ---- archive ---------------------------------------------------------------

#[test]
fn archive_active_plan_preserves_tasks() {
    let mut store = make_store("/plans");
    store.create_plan("main", "alpha", None).unwrap();
    add(&mut store, "alpha", "keep me", Priority::Medium);

    let archived = store.archive_plan("main", "alpha").unwrap();
    assert_eq!(archived.status, PlanStatus::Archived);
    assert!(archived.archived_at.is_some(), "archived_at must be set");

    let reread = store.get_plan("main", "alpha").unwrap();
    assert_eq!(reread.status, PlanStatus::Archived);
    let tasks = store.list_tasks("main", "alpha").unwrap();
    assert_eq!(tasks.len(), 1, "archival must not drop tasks");
    assert_eq!(tasks[0].title, "keep me");
}

#[test]
fn archive_empty_plan() {
    let mut store = make_store("/plans");
    store.create_plan("main", "empty", None).unwrap();

    let archived = store.archive_plan("main", "empty").unwrap();
    assert_eq!(archived.status, PlanStatus::Archived);

    let listed = store
        .list_plans_by_status("main", Some(PlanStatus::Archived))
        .unwrap();
    assert!(listed.iter().any(|p| p.name == "empty"));
}

#[test]
fn archive_missing_plan_errors() {
    let mut store = make_store("/plans");
    assert!(matches!(
        store.archive_plan("main", "ghost"),
        Err(TaskStoreError::PlanNotFound(_))
    ));
}

// ---- assignment ----------------------------------------------------------

#[test]
fn add_task_with_assignment() {
    let mut store = make_store("/plans");
    store.create_plan("main", "p", None).unwrap();
    let task = store
        .add_task("main", "p", "assigned", Priority::Medium, None, vec![], Some("codex".into()))
        .unwrap();
    assert_eq!(task.assigned_to.as_deref(), Some("codex"));

    let fetched = store.get_task("main", "p", &task.id).unwrap();
    assert_eq!(fetched.assigned_to.as_deref(), Some("codex"));
}

#[test]
fn add_task_without_assignment() {
    let mut store = make_store("/plans");
    store.create_plan("main", "p", None).unwrap();
    let task = add(&mut store, "p", "free", Priority::Medium);
    assert!(task.assigned_to.is_none());
}

#[test]
fn assign_and_unassign_task() {
    let mut store = make_store("/plans");
    store.create_plan("main", "p", None).unwrap();
    let task = add(&mut store, "p", "x", Priority::Medium);

    let task = store.assign_task("main", "p", &task.id, "helper-bot").unwrap();
    assert_eq!(task.assigned_to.as_deref(), Some("helper-bot"));

    let task = store.unassign_task("main", "p", &task.id).unwrap();
    assert!(task.assigned_to.is_none());
}

#[test]
fn next_task_for_filters_by_agent() {
    let mut store = make_store("/plans");
    store.create_plan("main", "p", None).unwrap();
    store
        .add_task("main", "p", "for codex", Priority::High, None, vec![], Some("codex".into()))
        .unwrap();
    store
        .add_task(
            "main",
            "p",
            "for helper",
            Priority::Medium,
            None,
            vec![],
            Some("helper-bot".into()),
        )
        .unwrap();
    add(&mut store, "p", "unassigned", Priority::Low);

    let next = store.next_task_for("main", "p", Some("codex"), true).unwrap().unwrap();
    assert_eq!(next.title, "for codex");

    let next = store
        .next_task_for("main", "p", Some("helper-bot"), true)
        .unwrap()
        .unwrap();
    assert_eq!(next.title, "for helper");

    let next = store.next_task_for("main", "p", Some("other"), true).unwrap().unwrap();
    assert_eq!(next.title, "unassigned");

    let next = store.next_task_for("main", "p", Some("other"), false).unwrap();
    assert!(next.is_none());
}

#[test]
fn next_task_for_with_none_returns_any() {
    let mut store = make_store("/plans");
    store.create_plan("main", "p", None).unwrap();
    store
        .add_task("main", "p", "x", Priority::High, None, vec![], Some("codex".into()))
        .unwrap();
    let next = store.next_task_for("main", "p", None, true).unwrap();
    assert!(next.is_some());
}

#[test]
fn list_plans_by_status_filters() {
    let mut store = make_store("/plans");
    store.create_plan("main", "alpha", None).unwrap();
    store.create_plan("main", "beta", None).unwrap();
    store.archive_plan("main", "beta").unwrap();

    let active = store
        .list_plans_by_status("main", Some(PlanStatus::Active))
        .unwrap();
    assert_eq!(active.len(), 1);
    assert_eq!(active[0].name, "alpha");

    let archived = store
        .list_plans_by_status("main", Some(PlanStatus::Archived))
        .unwrap();
    assert_eq!(archived.len(), 1);
    assert_eq!(archived[0].name, "beta");

    let all = store.list_plans_by_status("main", None).unwrap();
    assert_eq!(all.len(), 2);
}

#[test]
fn assignment_survives_transitions() {
    let mut store = make_store("/plans");
    store.create_plan("main", "p", None).unwrap();
    let task = store
        .add_task("main", "p", "x", Priority::Medium, None, vec![], Some("codex".into()))
        .unwrap();

    let task = store.start_task("main", "p", &task.id).unwrap();
    assert_eq!(task.assigned_to.as_deref(), Some("codex"));

    let task = store
        .complete_task("main", "p", &task.id, Proof::commit("abc"))
        .unwrap();
    assert_eq!(task.assigned_to.as_deref(), Some("codex"));
}

// ---- closing plans ---------------------------------------------------------

#[test]
fn final_complete_leaves_plan_active_until_explicit_close() {
    let mut store = make_store("/plans");
    store.create_plan("main", "p", None).unwrap();
    let a = add(&mut store, "p", "a", Priority::Medium);
    let b = add(&mut store, "p", "b", Priority::Medium);
    finish(&mut store, "p", &a.id, Proof::commit("a"));
    finish(&mut store, "p", &b.id, Proof::commit("b"));

    assert_eq!(store.get_plan("main", "p").unwrap().status, PlanStatus::Active);

    let closed = store.close_plan("main", "p", "shipped a + b").unwrap();
    assert_eq!(closed.status, PlanStatus::Completed);
    assert_eq!(closed.summary.as_deref(), Some("shipped a + b"));
    assert!(closed.closed_at.is_some());
    assert!(closed.closed_by.is_some());
}

#[test]
fn intermediate_complete_does_not_promote_plan() {
    let mut store = make_store("/plans");
    store.create_plan("main", "p", None).unwrap();
    let a = add(&mut store, "p", "a", Priority::Medium);
    add(&mut store, "p", "b", Priority::Medium);
    finish(&mut store, "p", &a.id, Proof::commit("a"));
    assert_eq!(store.get_plan("main", "p").unwrap().status, PlanStatus::Active);
}

#[test]
fn final_abandon_leaves_plan_active() {
    let mut store = make_store("/plans");
    store.create_plan("main", "p", None).unwrap();
    let a = add(&mut store, "p", "a", Priority::Medium);
    let b = add(&mut store, "p", "b", Priority::Medium);
    finish(&mut store, "p", &a.id, Proof::commit("a"));
    store.abandon_task("main", "p", &b.id, "scoped out").unwrap();

    assert_eq!(store.get_plan("main", "p").unwrap().status, PlanStatus::Active);

    let closed = store.close_plan("main", "p", "a done, b scoped out").unwrap();
    assert_eq!(closed.status, PlanStatus::Completed);
}

#[test]
fn close_plan_requires_a_summary() {
    let mut store = make_store("/plans");
    store.create_plan("main", "p", None).unwrap();
    let a = add(&mut store, "p", "a", Priority::Medium);
    finish(&mut store, "p", &a.id, Proof::commit("a"));

    assert!(matches!(
        store.close_plan("main", "p", "   "),
        Err(TaskStoreError::SummaryRequired)
    ));
    assert_eq!(store.get_plan("main", "p").unwrap().status, PlanStatus::Active);
}

#[test]
fn close_plan_refuses_open_tasks() {
    let mut store = make_store("/plans");
    store.create_plan("main", "p", None).unwrap();
    add(&mut store, "p", "a", Priority::Medium);
    assert!(matches!(
        store.close_plan("main", "p", "done"),
        Err(TaskStoreError::CannotClose { .. })
    ));
}

#[test]
fn close_plan_is_idempotent() {
    let mut store = make_store("/plans");
    store.create_plan("main", "p", None).unwrap();
    let a = add(&mut store, "p", "a", Priority::Medium);
    finish(&mut store, "p", &a.id, Proof::commit("a"));

    let first = store.close_plan("main", "p", "first summary").unwrap();
    let again = store.close_plan("main", "p", "different text").unwrap();
    assert_eq!(again.status, PlanStatus::Completed);
    assert_eq!(again.summary, first.summary);
}

#[test]
fn close_missing_plan_errors() {
    let mut store = make_store("/plans");
    assert!(matches!(
        store.close_plan("main", "ghost", "summary"),
        Err(TaskStoreError::PlanNotFound(_))
    ));
    assert!(matches!(
        store.close_plan("main", "ghost", ""),
        Err(TaskStoreError::SummaryRequired)
    ));
}

#[test]
fn close_empty_plan_succeeds() {
    let mut store = make_store("/plans");
    store.create_plan("main", "p", None).unwrap();
    let closed = store.close_plan("main", "p", "nothing to do").unwrap();
    assert_eq!(closed.status, PlanStatus::Completed);
    assert_eq!(closed.closed_by.as_deref(), Some("test-agent"));
}

// ---- blockers --------------------------------------------------------------

#[test]
fn start_refused_while_blocker_pending() {
    let mut store = make_store("/plans");
    store.create_plan("main", "p", None).unwrap();
    let a = add(&mut store, "p", "blocker", Priority::Medium);
    let b = add_blocked(&mut store, "p", "dependent", Priority::High, &a.id);

    let err = store.start_task("main", "p", &b.id).unwrap_err();
    match err {
        TaskStoreError::Blocked { blockers } => {
            assert_eq!(blockers, vec![a.id.clone()]);
        }
        e => panic!("expected Blocked, got {:?}", e),
    }
}

#[test]
fn start_allowed_after_blocker_done() {
    let mut store = make_store("/plans");
    store.create_plan("main", "p", None).unwrap();
    let a = add(&mut store, "p", "blocker", Priority::Medium);
    let b = add_blocked(&mut store, "p", "dependent", Priority::High, &a.id);
    finish(&mut store, "p", &a.id, Proof::commit("abc"));
    store.start_task("main", "p", &b.id).unwrap();
}

#[test]
fn abandoned_blocker_does_not_unblock() {
    let mut store = make_store("/plans");
    store.create_plan("main", "p", None).unwrap();
    let a = add(&mut store, "p", "blocker", Priority::Medium);
    let b = add_blocked(&mut store, "p", "dependent", Priority::High, &a.id);
    store.abandon_task("main", "p", &a.id, "not needed").unwrap();
    let err = store.start_task("main", "p", &b.id).unwrap_err();
    assert!(matches!(err, TaskStoreError::Blocked { .. }));
}

#[test]
fn set_blockers_requires_existing_tasks() {
    let mut store = make_store("/plans");
    store.create_plan("main", "p", None).unwrap();
    let a = add(&mut store, "p", "x", Priority::Low);
    let err = store
        .set_blockers("main", "p", &a.id, vec![TaskId::new(99)])
        .unwrap_err();
    assert!(matches!(err, TaskStoreError::TaskNotFound { .. }));
}

#[test]
fn set_blockers_replaces_the_list() {
    let mut store = make_store("/plans");
    store.create_plan("main", "p", None).unwrap();
    let a = add(&mut store, "p", "a", Priority::Low);
    let b = add(&mut store, "p", "b", Priority::Low);
    let t = store
        .set_blockers("main", "p", &b.id, vec![a.id.clone()])
        .unwrap();
    assert_eq!(t.blocked_by, vec![a.id.clone()]);
    assert!(matches!(
        store.start_task("main", "p", &b.id),
        Err(TaskStoreError::Blocked { .. })
    ));
    let t = store.set_blockers("main", "p", &b.id, vec![]).unwrap();
    assert!(t.blocked_by.is_empty());
    store.start_task("main", "p", &b.id).unwrap();
}

#[test]
fn add_task_rejects_malformed_blocker_ids() {
    let mut store = make_store("/plans");
    store.create_plan("main", "p", None).unwrap();

    for bad in &["nonsense", "t-", "t-xyz", "../../_meta", ""] {
        let err = store
            .add_task(
                "main",
                "p",
                "dependent",
                Priority::High,
                None,
                vec![TaskId((*bad).to_string())],
                None,
            )
            .unwrap_err();
        match err {
            TaskStoreError::InvalidBlockerId(s) => assert_eq!(s, *bad),
            other => panic!("expected InvalidBlockerId for {:?}, got {:?}", bad, other),
        }
    }
}

#[test]
fn blocker_id_shape_limits() {
    let mut store = make_store("/plans");
    store.create_plan("main", "p", None).unwrap();
    for bad in &["t-1234567890", "t-1a", "x-001", "t-+1"] {
        let err = store
            .add_task("main", "p", "d", Priority::High, None, vec![TaskId((*bad).to_string())], None)
            .unwrap_err();
        assert!(
            matches!(err, TaskStoreError::InvalidBlockerId(ref s) if s == bad),
            "{:?}: {:?}",
            bad,
            err
        );
    }
    // Well-shaped but absent: the existence check answers.
    let err = store
        .add_task("main", "p", "d", Priority::High, None, vec![TaskId::new(123456789)], None)
        .unwrap_err();
    assert!(matches!(err, TaskStoreError::TaskNotFound { .. }));
}

#[test]
fn add_task_accepts_valid_blocker_id_shape() {
    let mut store = make_store("/plans");
    store.create_plan("main", "p", None).unwrap();
    let a = add(&mut store, "p", "blocker", Priority::Medium);
    assert_eq!(a.id.0, "t-001");
    let _ = add_blocked(&mut store, "p", "dep", Priority::High, &a.id);
}

#[test]
fn set_blockers_rejects_malformed_ids() {
    let mut store = make_store("/plans");
    store.create_plan("main", "p", None).unwrap();
    let a = add(&mut store, "p", "x", Priority::Low);
    let err = store
        .set_blockers("main", "p", &a.id, vec![TaskId("../../_meta".to_string())])
        .unwrap_err();
    assert!(matches!(err, TaskStoreError::InvalidBlockerId(_)), "got {:?}", err);
}

// ---- prefixes --------------------------------------------------------------

#[test]
fn two_stores_with_different_prefixes_do_not_interfere() {
    let mut plans = TaskStore::new("/plans", "ctxone-agent");
    let mut threads = TaskStore::new("/threads/tasks", "tw-agent");

    plans.create_plan("main", "website-v2", None).unwrap();
    threads.create_plan("main", "thread-1", None).unwrap();
    add(&mut plans, "website-v2", "hero", Priority::High);
    add(&mut threads, "thread-1", "reply", Priority::Medium);

    let plans_list = plans.list_plans("main").unwrap();
    assert_eq!(plans_list.len(), 1);
    assert_eq!(plans_list[0].name, "website-v2");

    let threads_list = threads.list_plans("main").unwrap();
    assert_eq!(threads_list.len(), 1);
    assert_eq!(threads_list[0].name, "thread-1");

    assert_eq!(plans.list_tasks("main", "website-v2").unwrap().len(), 1);
    assert_eq!(threads.list_tasks("main", "thread-1").unwrap().len(), 1);

    assert!(plans.get_plan("main", "thread-1").is_err());
    assert!(threads.get_plan("main", "website-v2").is_err());
}

#[test]
fn trailing_slash_in_prefix_is_stripped() {
    let mut store = TaskStore::new("/plans/", "agent");
    assert_eq!(store.prefix(), "/plans");
    store.create_plan("main", "p", None).unwrap();
    assert!(store.get_plan("main", "p").is_ok());
    assert_eq!(store.agent_id(), "agent");
}

// ---- next task -------------------------------------------------------------

#[test]
fn next_task_picks_highest_priority_unblocked() {
    let mut store = make_store("/plans");
    store.create_plan("main", "p", None).unwrap();
    add(&mut store, "p", "low", Priority::Low);
    let high = add(&mut store, "p", "high", Priority::High);
    add(&mut store, "p", "medium", Priority::Medium);

    let next = store.next_task("main", "p").unwrap().unwrap();
    assert_eq!(next.id, high.id);
}

#[test]
fn next_task_skips_blocked() {
    let mut store = make_store("/plans");
    store.create_plan("main", "p", None).unwrap();
    let blocker = add(&mut store, "p", "blocker", Priority::Low);
    add_blocked(&mut store, "p", "high-but-blocked", Priority::Critical, &blocker.id);

    let next = store.next_task("main", "p").unwrap().unwrap();
    assert_eq!(next.id, blocker.id);
}

#[test]
fn next_task_none_when_all_done() {
    let mut store = make_store("/plans");
    store.create_plan("main", "p", None).unwrap();
    let a = add(&mut store, "p", "only", Priority::Medium);
    finish(&mut store, "p", &a.id, Proof::commit("abc"));
    assert!(store.next_task("main", "p").unwrap().is_none());
}

#[test]
fn next_task_breaks_ties_by_lowest_id() {
    let mut store = make_store("/plans");
    store.create_plan("main", "p", None).unwrap();
    let first = add(&mut store, "p", "first", Priority::High);
    add(&mut store, "p", "second", Priority::High);
    let next = store.next_task("main", "p").unwrap().unwrap();
    assert_eq!(next.id, first.id);
}

// ---- parent rollup ---------------------------------------------------------

#[test]
fn parent_with_no_subtasks_reports_own_status() {
    let mut store = make_store("/plans");
    store.create_plan("main", "p", None).unwrap();
    let parent = add(&mut store, "p", "parent", Priority::Medium);
    let status = store.derived_status("main", "p", &parent.id).unwrap();
    assert_eq!(status, TaskStatus::Pending);
}

#[test]
fn parent_all_subtasks_done() {
    let mut store = make_store("/plans");
    store.create_plan("main", "p", None).unwrap();
    let parent = add(&mut store, "p", "parent", Priority::Medium);
    let a = add_child(&mut store, "p", "a", &parent.id);
    let b = add_child(&mut store, "p", "b", &parent.id);
    finish(&mut store, "p", &a.id, Proof::commit("a"));
    finish(&mut store, "p", &b.id, Proof::commit("b"));
    assert_eq!(
        store.derived_status("main", "p", &parent.id).unwrap(),
        TaskStatus::Done
    );
}

#[test]
fn parent_any_in_progress_reports_in_progress() {
    let mut store = make_store("/plans");
    store.create_plan("main", "p", None).unwrap();
    let parent = add(&mut store, "p", "parent", Priority::Medium);
    let a = add_child(&mut store, "p", "a", &parent.id);
    add_child(&mut store, "p", "b", &parent.id);
    store.start_task("main", "p", &a.id).unwrap();
    assert_eq!(
        store.derived_status("main", "p", &parent.id).unwrap(),
        TaskStatus::InProgress
    );
}

#[test]
fn parent_with_abandoned_and_done_reports_done() {
    let mut store = make_store("/plans");
    store.create_plan("main", "p", None).unwrap();
    let parent = add(&mut store, "p", "parent", Priority::Medium);
    let a = add_child(&mut store, "p", "a", &parent.id);
    let b = add_child(&mut store, "p", "b", &parent.id);
    finish(&mut store, "p", &a.id, Proof::commit("a"));
    store.abandon_task("main", "p", &b.id, "skipped").unwrap();
    assert_eq!(
        store.derived_status("main", "p", &parent.id).unwrap(),
        TaskStatus::Done
    );
}

#[test]
fn parent_with_all_abandoned_reports_pending() {
    let mut store = make_store("/plans");
    store.create_plan("main", "p", None).unwrap();
    let parent = add(&mut store, "p", "parent", Priority::Medium);
    let a = add_child(&mut store, "p", "a", &parent.id);
    store.abandon_task("main", "p", &a.id, "no").unwrap();
    assert_eq!(
        store.derived_status("main", "p", &parent.id).unwrap(),
        TaskStatus::Pending
    );
}

#[test]
fn cannot_make_subtask_a_parent() {
    let mut store = make_store("/plans");
    store.create_plan("main", "p", None).unwrap();
    let parent = add(&mut store, "p", "parent", Priority::Medium);
    let child = add_child(&mut store, "p", "child", &parent.id);
    let err = store
        .add_task("main", "p", "grandchild", Priority::Medium, Some(child.id.clone()), vec![], None)
        .unwrap_err();
    assert!(matches!(err, TaskStoreError::ParentIsSubtask(_)));
}

#[test]
fn missing_parent_is_refused() {
    let mut store = make_store("/plans");
    store.create_plan("main", "p", None).unwrap();
    let err = store
        .add_task("main", "p", "orphan", Priority::Medium, Some(TaskId::new(9)), vec![], None)
        .unwrap_err();
    assert!(matches!(err, TaskStoreError::TaskNotFound { .. }), "{:?}", err);
}

// ---- extensions ------------------------------------------------------------

#[test]
fn test_task_with_payload_roundtrips() {
    let mut store = make_store("/plans");
    store.create_plan("main", "p", None).unwrap();
    let payload =
        r#"{"proposal":{"action":"rollback_deployment","preferred_option":"spec-abc","tokens":["destructive","prod"]}}"#
            .to_string();
    let task = store
        .add_task_with_extensions(
            "main",
            "p",
            "approve rollback",
            Priority::High,
            None,
            vec![],
            Some("oncall".into()),
            AddTaskOptions { payload: Some(payload.clone()), ..Default::default() },
        )
        .unwrap();
    assert_eq!(task.payload.as_ref(), Some(&payload));

    let fetched = store.get_task("main", "p", &task.id).unwrap();
    assert_eq!(fetched, task);
    assert_eq!(fetched.payload, Some(payload));
}

#[test]
fn test_task_with_parent_change_roundtrips() {
    let mut store = make_store("/plans");
    store.create_plan("main", "p", None).unwrap();
    let task = store
        .add_task_with_extensions(
            "main",
            "p",
            "review deferred change",
            Priority::Medium,
            None,
            vec![],
            None,
            AddTaskOptions { parent_change: Some("spec-deadbeef".into()), ..Default::default() },
        )
        .unwrap();
    assert_eq!(task.parent_change.as_deref(), Some("spec-deadbeef"));
    let fetched = store.get_task("main", "p", &task.id).unwrap();
    assert_eq!(fetched, task);
}

#[test]
fn test_add_task_with_extensions_builder() {
    let mut store = make_store("/plans");
    store.create_plan("main", "p", None).unwrap();
    let payload = r#"{"proposal":"spec-xyz"}"#.to_string();
    let task = store
        .add_task_with_extensions(
            "main",
            "p",
            "full ext",
            Priority::Critical,
            None,
            vec![],
            Some("agent-a".into()),
            AddTaskOptions {
                payload: Some(payload.clone()),
                parent_change: Some("spec-xyz".into()),
                on_complete: Some(OnCompleteHook::PromoteChange),
            },
        )
        .unwrap();
    assert_eq!(task.title, "full ext");
    assert_eq!(task.priority, Priority::Critical);
    assert_eq!(task.assigned_to.as_deref(), Some("agent-a"));
    assert_eq!(task.payload, Some(payload));
    assert_eq!(task.parent_change.as_deref(), Some("spec-xyz"));
    assert_eq!(task.on_complete, Some(OnCompleteHook::PromoteChange));
    let fetched = store.get_task("main", "p", &task.id).unwrap();
    assert_eq!(fetched, task);
}

#[test]
fn plain_add_task_leaves_extensions_empty() {
    let mut store = make_store("/plans");
    store.create_plan("main", "p", None).unwrap();
    let t = add(&mut store, "p", "seed", Priority::Medium);
    assert_eq!(t.payload, None);
    assert_eq!(t.parent_change, None);
    assert_eq!(t.on_complete, None);
}

// ---- verification ----------------------------------------------------------

struct TestVerifier;

impl Verifier for TestVerifier {
    fn verify(&self, proof: &Proof) -> VerifyResult {
        match proof.kind {
            ProofKind::Commit => VerifyResult::Verified {
                message: format!("commit {} reachable", proof.value),
            },
            ProofKind::File => VerifyResult::Decayed {
                reason: format!("file {} missing", proof.value),
            },
            ProofKind::Test => VerifyResult::Verified {
                message: format!("test {} exists", proof.value),
            },
            ProofKind::Text => VerifyResult::Unverifiable {
                reason: "free-form text".to_string(),
            },
        }
    }
}

fn complete_new(store: &mut TaskStore, plan: &str, title: &str, proof: Proof) {
    let task = add(store, plan, title, Priority::Medium);
    finish(store, plan, &task.id, proof);
}

#[test]
fn verify_plan_reports_per_task_result() {
    let mut store = make_store("/plans");
    store.create_plan("main", "p", None).unwrap();
    complete_new(&mut store, "p", "commit-one", Proof::commit("deadbeef"));
    complete_new(&mut store, "p", "file-one", Proof::file("/tmp/gone"));
    complete_new(&mut store, "p", "test-one", Proof::test("test_foo"));
    complete_new(&mut store, "p", "text-one", Proof::text("trust me"));

    let report = store.verify_plan("main", "p", &TestVerifier).unwrap();
    assert_eq!(report.results.len(), 4);
    assert_eq!(report.verified_count(), 2);
    assert_eq!(report.decayed_count(), 1);
    assert_eq!(report.unverifiable_count(), 1);
    assert!(!report.all_strongly_verified());
    assert_eq!(report.plan, "p");
    assert_eq!(report.results[0].task_id, TaskId::new(1));
}

#[test]
fn verify_plan_skips_non_done_tasks() {
    let mut store = make_store("/plans");
    store.create_plan("main", "p", None).unwrap();
    let a = add(&mut store, "p", "a", Priority::Medium);
    finish(&mut store, "p", &a.id, Proof::commit("abc"));
    add(&mut store, "p", "b", Priority::Medium);

    let report = store.verify_plan("main", "p", &TestVerifier).unwrap();
    assert_eq!(report.results.len(), 1);
}

#[test]
fn noop_verifier_flags_everything_as_unverifiable() {
    let mut store = make_store("/plans");
    store.create_plan("main", "p", None).unwrap();
    complete_new(&mut store, "p", "x", Proof::commit("abc"));
    let report = store.verify_plan("main", "p", &NoopVerifier).unwrap();
    assert_eq!(report.unverifiable_count(), 1);
    assert_eq!(report.verified_count(), 0);
}

#[test]
fn consumer_workflow_walks_and_verifies_a_plan() {
    struct Reachable(Vec<String>);
    impl Verifier for Reachable {
        fn verify(&self, proof: &Proof) -> VerifyResult {
            if self.0.contains(&proof.value) {
                VerifyResult::Verified { message: "ok".to_string() }
            } else {
                VerifyResult::Decayed { reason: "gone".to_string() }
            }
        }
    }

    let mut store = TaskStore::new("/plans", "helper-bot");
    store.create_plan("main", "website-v2", Some("Brand pivot".into())).unwrap();
    let design = add(&mut store, "website-v2", "Finalise brand palette", Priority::Critical);
    let hero = add_blocked(&mut store, "website-v2", "Rewrite hero copy", Priority::High, &design.id);
    let nav = add(&mut store, "website-v2", "Update nav", Priority::Medium);

    let next = store.next_task("main", "website-v2").unwrap().unwrap();
    assert_eq!(next.id, design.id);
    finish(&mut store, "website-v2", &design.id, Proof::commit("deadbeef1234"));

    let next = store.next_task("main", "website-v2").unwrap().unwrap();
    assert_eq!(next.id, hero.id);
    finish(&mut store, "website-v2", &hero.id, Proof::file("site/src/components/Hero.astro"));
    store.abandon_task("main", "website-v2", &nav.id, "scoped out of v2").unwrap();

    let all = Reachable(vec![
        "deadbeef1234".to_string(),
        "site/src/components/Hero.astro".to_string(),
    ]);
    let report = store.verify_plan("main", "website-v2", &all).unwrap();
    assert_eq!(report.results.len(), 2);
    assert_eq!(report.verified_count(), 2);
    assert!(report.all_strongly_verified());

    let some = Reachable(vec!["site/src/components/Hero.astro".to_string()]);
    let report = store.verify_plan("main", "website-v2", &some).unwrap();
    assert_eq!(report.verified_count(), 1);
    assert_eq!(report.decayed_count(), 1);
    assert!(!report.all_strongly_verified());

    // No transition closes a plan by itself.
    let plan = store.get_plan("main", "website-v2").unwrap();
    assert_eq!(plan.status, PlanStatus::Active);
    let plan = store.close_plan("main", "website-v2", "shipped").unwrap();
    assert_eq!(plan.status, PlanStatus::Completed);
}

#[test]
fn next_task_can_always_be_started() {
    let mut store = make_store("/plans");
    store.create_plan("main", "p", None).unwrap();
    let a = add(&mut store, "p", "a", Priority::Low);
    add_blocked(&mut store, "p", "b", Priority::Critical, &a.id);
    add(&mut store, "p", "c", Priority::High);
    while let Some(next) = store.next_task("main", "p").unwrap() {
        store.start_task("main", "p", &next.id).unwrap();
        store
            .complete_task("main", "p", &next.id, Proof::text("done"))
            .unwrap();
    }
    let tasks = store.list_tasks("main", "p").unwrap();
    assert!(tasks.iter().all(|t| t.status == TaskStatus::Done));
}

#[test]
fn next_task_ties_go_to_the_task_added_first() {
    let mut store = make_store("/plans");
    store.create_plan("main", "p", None).unwrap();
    for i in 0..1000 {
        add(&mut store, "p", &format!("task {i}"), Priority::Low);
    }
    store.set_priority("main", "p", &TaskId::new(1000), Priority::High).unwrap();
    store.set_priority("main", "p", &TaskId::new(999), Priority::High).unwrap();
    let next = store.next_task("main", "p").unwrap().unwrap();
    assert_eq!(next.id.as_str(), "t-999");
}
