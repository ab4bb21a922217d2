use agentstategraph_substrate::tasks::error::TaskStoreError;
use agentstategraph_substrate::tasks::names::{parse_plan_status, parse_priority, parse_proof_kind};
use agentstategraph_substrate::tasks::paths::{plan_meta, plan_root, task};
use agentstategraph_substrate::tasks::state::{check_transition, Transition};
use agentstategraph_substrate::tasks::types::{
    PlanStatus, Priority, Proof, ProofKind, TaskId, TaskStatus,
};
use agentstategraph_substrate::tasks::verify::{
    NoopVerifier, Verifier, VerifyEntry, VerifyReport, VerifyResult,
};

#[test]
fn paths_compose() {
    assert_eq!(plan_root("/plans", "website-v2"), "/plans/website-v2");
    assert_eq!(plan_meta("/plans", "website-v2"), "/plans/website-v2/_meta");
    assert_eq!(
        task("/plans", "website-v2", &TaskId::new(7)),
        "/plans/website-v2/t-007"
    );
}

#[test]
fn nested_prefix_works() {
    assert_eq!(
        plan_meta("/threads/tasks", "thread-1"),
        "/threads/tasks/thread-1/_meta"
    );
}

#[test]
fn legal_transitions() {
    check_transition(TaskStatus::Pending, Transition::Start).unwrap();
    check_transition(TaskStatus::InProgress, Transition::Complete).unwrap();
    check_transition(TaskStatus::Pending, Transition::Abandon).unwrap();
    check_transition(TaskStatus::InProgress, Transition::Abandon).unwrap();
}

#[test]
fn cannot_start_in_progress() {
    let err = check_transition(TaskStatus::InProgress, Transition::Start).unwrap_err();
    assert!(matches!(err, TaskStoreError::InvalidTransition { .. }));
}

#[test]
fn cannot_complete_pending() {
    assert!(check_transition(TaskStatus::Pending, Transition::Complete).is_err());
}

#[test]
fn terminal_states_cannot_transition() {
    assert!(check_transition(TaskStatus::Done, Transition::Start).is_err());
    assert!(check_transition(TaskStatus::Done, Transition::Complete).is_err());
    assert!(check_transition(TaskStatus::Done, Transition::Abandon).is_err());
    assert!(check_transition(TaskStatus::Abandoned, Transition::Start).is_err());
    assert!(check_transition(TaskStatus::Abandoned, Transition::Complete).is_err());
    assert!(check_transition(TaskStatus::Abandoned, Transition::Abandon).is_err());
}

#[test]
fn invalid_transition_names_both_states() {
    match check_transition(TaskStatus::Pending, Transition::Complete) {
        Err(TaskStoreError::InvalidTransition { from, to }) => {
            assert_eq!(from, TaskStatus::Pending);
            assert_eq!(to, TaskStatus::Done);
        }
        other => panic!("unexpected: {:?}", other),
    }
}

#[test]
fn task_id_roundtrip() {
    let id = TaskId::new(42);
    assert_eq!(id.as_str(), "t-042");
    assert_eq!(id.number().unwrap(), 42);
}

#[test]
fn task_id_padding() {
    assert_eq!(TaskId::new(1).as_str(), "t-001");
    assert_eq!(TaskId::new(999).as_str(), "t-999");
    assert_eq!(TaskId::new(1000).as_str(), "t-1000");
}

#[test]
fn task_id_parse_invalid() {
    assert!(TaskId("nope".to_string()).number().is_err());
    assert!(TaskId("t-abc".to_string()).number().is_err());
}

#[test]
fn task_id_parse_error_is_invalid_task_id() {
    match TaskId("t-".to_string()).number() {
        Err(TaskStoreError::InvalidTaskId(s)) => assert_eq!(s, "t-"),
        other => panic!("unexpected: {:?}", other),
    }
    assert_eq!(TaskId("t-0".to_string()).number().unwrap(), 0);
    assert_eq!(TaskId("t-4294967295".to_string()).number().unwrap(), u32::MAX);
    assert!(TaskId("t-4294967296".to_string()).number().is_err());
}

#[test]
fn priority_ordering() {
    assert!(Priority::Critical > Priority::High);
    assert!(Priority::High > Priority::Medium);
    assert!(Priority::Medium > Priority::Low);
}

#[test]
fn priority_levels_follow_order() {
    assert_eq!(Priority::Low.level(), 0);
    assert_eq!(Priority::Medium.level(), 1);
    assert_eq!(Priority::High.level(), 2);
    assert_eq!(Priority::Critical.level(), 3);
    assert_eq!(Priority::default(), Priority::Medium);
}

#[test]
fn task_status_terminal() {
    assert!(TaskStatus::Done.is_terminal());
    assert!(TaskStatus::Abandoned.is_terminal());
    assert!(!TaskStatus::Pending.is_terminal());
    assert!(!TaskStatus::InProgress.is_terminal());
}

#[test]
fn proof_constructors() {
    let p = Proof::commit("abc123").with_note("verified");
    assert_eq!(p.kind, ProofKind::Commit);
    assert_eq!(p.value, "abc123");
    assert_eq!(p.note.as_deref(), Some("verified"));
}

#[test]
fn proof_kinds_per_constructor() {
    assert_eq!(Proof::file("src/a.rs").kind, ProofKind::File);
    assert_eq!(Proof::test("it_works").kind, ProofKind::Test);
    let t = Proof::text("done");
    assert_eq!(t.kind, ProofKind::Text);
    assert_eq!(t.value, "done");
    assert!(t.note.is_none());
}

#[test]
fn noop_verifier_returns_unverifiable() {
    let v = NoopVerifier;
    let p = Proof::commit("abc");
    assert!(matches!(v.verify(&p), VerifyResult::Unverifiable { .. }));
}

fn entry(n: u32, result: VerifyResult) -> VerifyEntry {
    VerifyEntry { task_id: TaskId::new(n), result }
}

#[test]
fn report_counts() {
    let report = VerifyReport {
        plan: "p".to_string(),
        results: vec![
            entry(1, VerifyResult::Verified { message: "ok".into() }),
            entry(2, VerifyResult::Decayed { reason: "file deleted".into() }),
            entry(3, VerifyResult::Unverifiable { reason: "text".into() }),
        ],
    };
    assert_eq!(report.verified_count(), 1);
    assert_eq!(report.decayed_count(), 1);
    assert_eq!(report.unverifiable_count(), 1);
    assert!(!report.all_strongly_verified());
    assert!(report.has_unverifiable());
}

#[test]
fn summary_distinguishes_three_categories() {
    let report = VerifyReport {
        plan: "p".to_string(),
        results: vec![
            entry(1, VerifyResult::Verified { message: "ok".into() }),
            entry(2, VerifyResult::Verified { message: "ok".into() }),
            entry(3, VerifyResult::Decayed { reason: "file missing".into() }),
            entry(4, VerifyResult::Unverifiable { reason: "text".into() }),
        ],
    };
    let s = report.summary();
    assert!(s.contains("verified"), "summary: {s}");
    assert!(s.contains("decayed"), "summary: {s}");
    assert!(s.contains("unverifiable"), "summary: {s}");
    assert!(s.contains('2'), "summary should mention the 2 verified: {s}");
    assert!(
        s.to_lowercase().contains("not")
            && (s.to_lowercase().contains("success")
                || s.to_lowercase().contains("mechanically checked")),
        "summary should flag unverifiable is not safe to treat as success: {s}"
    );
}

#[test]
fn all_strongly_verified_rejects_unverifiable() {
    let report = VerifyReport {
        plan: "p".to_string(),
        results: vec![
            entry(1, VerifyResult::Verified { message: "ok".into() }),
            entry(2, VerifyResult::Unverifiable { reason: "text".into() }),
        ],
    };
    assert!(!report.all_strongly_verified());
    assert!(report.has_unverifiable());
}

#[test]
fn all_strongly_verified_accepts_only_verified() {
    let report = VerifyReport {
        plan: "p".to_string(),
        results: vec![
            entry(1, VerifyResult::Verified { message: "ok".into() }),
            entry(2, VerifyResult::Verified { message: "ok".into() }),
        ],
    };
    assert!(report.all_strongly_verified());
    assert!(!report.has_unverifiable());
    let empty = VerifyReport { plan: "p".to_string(), results: vec![] };
    assert!(!empty.all_strongly_verified());
}

#[test]
fn names_parse_case_insensitively() {
    assert_eq!(parse_priority("low"), Priority::Low);
    assert_eq!(parse_priority("HIGH"), Priority::High);
    assert_eq!(parse_priority("Critical"), Priority::Critical);
    assert_eq!(parse_priority("medium"), Priority::Medium);
    assert_eq!(parse_priority("urgent"), Priority::Medium);
    assert_eq!(parse_priority("lo"), Priority::Medium);
    assert_eq!(parse_plan_status("Archived"), Some(PlanStatus::Archived));
    assert_eq!(parse_plan_status("ACTIVE"), Some(PlanStatus::Active));
    assert_eq!(parse_plan_status("completed"), Some(PlanStatus::Completed));
    assert_eq!(parse_plan_status("done"), None);
    assert_eq!(parse_proof_kind("Commit"), Some(ProofKind::Commit));
    assert_eq!(parse_proof_kind("FILE"), Some(ProofKind::File));
    assert_eq!(parse_proof_kind("test"), Some(ProofKind::Test));
    assert_eq!(parse_proof_kind("TeXt"), Some(ProofKind::Text));
    assert_eq!(parse_proof_kind("texts"), None);
    // Agrees with std's lowercasing on these names.
    for s in ["LOW", "hIgH", "cRiTiCaL", "Ärchived", "\u{212A}"] {
        let via_std = s.to_lowercase();
        let expected = match via_std.as_str() {
            "low" => Priority::Low,
            "high" => Priority::High,
            "critical" => Priority::Critical,
            _ => Priority::Medium,
        };
        assert_eq!(parse_priority(s), expected, "{s}");
    }
}
