use chrono::Utc;

use agentstategraph_substrate::reminders::store::ReminderStore;
use agentstategraph_substrate::reminders::types::{CreateReminder, ReminderFilter};
use agentstategraph_substrate::storage::memory::{MemoryStorage, TaintStore};
use agentstategraph_substrate::storage::traits::{Storage, StorageError};
use agentstategraph_substrate::taint::types::{
    Taint, TaintEffect, TaintKind, TaintMetadata, TaintSeverity,
};
use agentstategraph_substrate::time::Timestamp;

fn now_ms() -> Timestamp {
    Utc::now().timestamp_millis()
}

fn test_taint(id: &str, path: &str) -> Taint {
    Taint {
        id: id.to_string(),
        path: path.to_string(),
        name: "test-taint".into(),
        kind: TaintKind::Taint,
        effect: TaintEffect::Warn,
        severity: TaintSeverity::Medium,
        reason: "test".into(),
        agent_id: "agent/test".into(),
        commit_id: String::new(),
        created_at: now_ms(),
        expires_at: None,
        resolved_at: None,
        resolved_by: None,
        resolved_reason: None,
        resolved_proof: None,
        propagate: true,
        metadata: TaintMetadata::new(),
    }
}

#[test]
fn test_taint_create_get() {
    let mut store = MemoryStorage::new();
    store.create_taint(&test_taint("t1", "/nodes/pico1")).unwrap();
    let got = store.get_taint("t1").unwrap();
    assert!(got.is_some());
    assert_eq!(got.unwrap().path, "/nodes/pico1");
}

#[test]
fn test_taint_get_nonexistent() {
    let store = MemoryStorage::new();
    assert!(store.get_taint("no-taint").unwrap().is_none());
}

#[test]
fn test_taint_duplicate_active_is_error() {
    let mut store = MemoryStorage::new();
    store.create_taint(&test_taint("t1", "/x")).unwrap();
    let mut t2 = test_taint("t2", "/x");
    t2.name = "test-taint".into();
    assert!(store.create_taint(&t2).is_err());
}

#[test]
fn duplicate_message_names_the_slot() {
    let mut store = MemoryStorage::new();
    store.create_taint(&test_taint("t1", "/x")).unwrap();
    match store.create_taint(&test_taint("t2", "/x")) {
        Err(StorageError::Backend(m)) => {
            assert_eq!(m, "duplicate active taint (/x, test-taint, Taint)")
        }
        other => panic!("unexpected: {:?}", other),
    }
    // Another kind or name in the same path is a different slot.
    let mut q = test_taint("t3", "/x");
    q.kind = TaintKind::Watch;
    store.create_taint(&q).unwrap();
    let mut n = test_taint("t4", "/x");
    n.name = "other".into();
    store.create_taint(&n).unwrap();
}

#[test]
fn test_taint_resolve() {
    let mut store = MemoryStorage::new();
    store.create_taint(&test_taint("t1", "/x")).unwrap();
    store
        .resolve_taint("t1", "agent/ops", "fixed", Some("commit-abc"), now_ms())
        .unwrap();
    let got = store.get_taint("t1").unwrap().unwrap();
    assert!(got.resolved_at.is_some());
    assert_eq!(got.resolved_by.as_deref(), Some("agent/ops"));
    assert_eq!(got.resolved_reason.as_deref(), Some("fixed"));
    assert_eq!(got.resolved_proof.as_deref(), Some("commit-abc"));
}

#[test]
fn test_taint_resolve_twice_is_error() {
    let mut store = MemoryStorage::new();
    store.create_taint(&test_taint("t1", "/x")).unwrap();
    store.resolve_taint("t1", "a", "r", None, now_ms()).unwrap();
    match store.resolve_taint("t1", "a", "r2", None, now_ms()) {
        Err(StorageError::Backend(m)) => assert_eq!(m, "taint t1 is already resolved"),
        other => panic!("unexpected: {:?}", other),
    }
    match store.resolve_taint("zz", "a", "r", None, now_ms()) {
        Err(StorageError::Backend(m)) => assert_eq!(m, "taint zz not found"),
        other => panic!("unexpected: {:?}", other),
    }
}

#[test]
fn test_taint_list_excludes_resolved_by_default() {
    let mut store = MemoryStorage::new();
    store.create_taint(&test_taint("t1", "/x")).unwrap();
    store.create_taint(&test_taint("t2", "/y")).unwrap();
    store.resolve_taint("t2", "a", "done", None, now_ms()).unwrap();

    let active = store.list_taints(None, None, false).unwrap();
    assert_eq!(active.len(), 1);
    assert_eq!(active[0].id, "t1");

    let all = store.list_taints(None, None, true).unwrap();
    assert_eq!(all.len(), 2);
}

#[test]
fn test_taint_list_path_prefix_filter() {
    let mut store = MemoryStorage::new();
    store.create_taint(&test_taint("t1", "/nodes/pico1")).unwrap();
    store.create_taint(&test_taint("t2", "/nodes/pico2")).unwrap();
    store.create_taint(&test_taint("t3", "/config")).unwrap();

    let nodes = store.list_taints(Some("/nodes"), None, false).unwrap();
    assert_eq!(nodes.len(), 2);

    let pico1 = store.list_taints(Some("/nodes/pico1"), None, false).unwrap();
    assert_eq!(pico1.len(), 1);

    // Trailing slashes on the prefix are ignored; the boundary holds.
    assert_eq!(store.list_taints(Some("/nodes//"), None, false).unwrap().len(), 2);
    assert_eq!(store.list_taints(Some("/node"), None, false).unwrap().len(), 0);
}

#[test]
fn list_taints_is_newest_first_and_stable() {
    let mut store = MemoryStorage::new();
    let mut a = test_taint("a", "/a");
    a.created_at = 100;
    let mut b = test_taint("b", "/b");
    b.created_at = 300;
    let mut c = test_taint("c", "/c");
    c.created_at = 200;
    let mut d = test_taint("d", "/d");
    d.created_at = 300;
    for t in [&a, &b, &c, &d] {
        store.create_taint(t).unwrap();
    }
    let ids: Vec<String> =
        store.list_taints(None, None, false).unwrap().into_iter().map(|t| t.id).collect();
    assert_eq!(ids, vec!["b", "d", "c", "a"]);
    let watches = store.list_taints(None, Some(TaintKind::Watch), true).unwrap();
    assert!(watches.is_empty());
}

#[test]
fn test_taint_check_propagation() {
    let mut store = MemoryStorage::new();
    store.create_taint(&test_taint("t1", "/nodes")).unwrap();
    let mut t2 = test_taint("t2", "/config");
    t2.name = "no-propagate".to_string();
    t2.propagate = false;
    store.create_taint(&t2).unwrap();

    let child_hits = store.check_taint("/nodes/pico1").unwrap();
    assert_eq!(child_hits.len(), 1, "propagating taint should match child");

    let exact_hit = store.check_taint("/config").unwrap();
    assert_eq!(exact_hit.len(), 1, "exact match always fires");

    let child_no_prop = store.check_taint("/config/network").unwrap();
    assert!(child_no_prop.is_empty(), "non-propagating should not match child");
}

#[test]
fn check_taint_at_honours_expiry() {
    let mut store = MemoryStorage::new();
    let mut t = test_taint("t1", "/x");
    t.expires_at = Some(1_000);
    store.create_taint(&t).unwrap();
    assert_eq!(store.check_taint_at("/x", 999).len(), 1);
    assert!(store.check_taint_at("/x", 1_000).is_empty());
}

#[test]
fn test_taint_set_commit_id() {
    let mut store = MemoryStorage::new();
    store.create_taint(&test_taint("t1", "/x")).unwrap();
    store.set_taint_commit_id("t1", "commit-777").unwrap();
    let got = store.get_taint("t1").unwrap().unwrap();
    assert_eq!(got.commit_id, "commit-777");
}

#[test]
fn set_commit_id_leaves_resolved_rows_alone() {
    let mut store = MemoryStorage::new();
    store.create_taint(&test_taint("t1", "/x")).unwrap();
    store.resolve_taint("t1", "a", "r", None, now_ms()).unwrap();
    store.set_taint_commit_id("t1", "late").unwrap();
    assert_eq!(store.get_taint("t1").unwrap().unwrap().commit_id, "");
    match store.set_taint_commit_id("nope", "c") {
        Err(StorageError::Backend(m)) => assert_eq!(m, "taint nope not found"),
        other => panic!("unexpected: {:?}", other),
    }
}

fn make_taint(path: &str, name: &str, kind: TaintKind, effect: TaintEffect) -> Taint {
    let mut t = test_taint(&uuid::Uuid::new_v4().to_string(), path);
    t.name = name.into();
    t.kind = kind;
    t.effect = effect;
    t.agent_id = "test-agent".into();
    t
}

fn run_conformance<S: TaintStore>(store: &mut S) {
    let t = make_taint("/cluster", "test", TaintKind::Taint, TaintEffect::Warn);
    let id = t.id.clone();

    store.create_taint(&t).unwrap();
    let fetched = store.get_taint(&id).unwrap().expect("fetched");
    assert_eq!(fetched.id, id);
    assert_eq!(fetched.path, "/cluster");
    assert!(!fetched.propagate ^ true);

    let mut dup = t.clone();
    dup.id = uuid::Uuid::new_v4().to_string();
    assert!(store.create_taint(&dup).is_err());

    store.set_taint_commit_id(&id, "commit-abc").unwrap();
    let fetched = store.get_taint(&id).unwrap().unwrap();
    assert_eq!(fetched.commit_id, "commit-abc");

    let matches = store.check_taint("/cluster/nodes/a").unwrap();
    assert_eq!(matches.len(), 1);
    assert_eq!(matches[0].id, id);

    let mut non_prop = make_taint("/other", "leaf", TaintKind::Taint, TaintEffect::Block);
    non_prop.propagate = false;
    let np_id = non_prop.id.clone();
    store.create_taint(&non_prop).unwrap();
    let direct = store.check_taint("/other").unwrap();
    assert!(direct.iter().any(|t| t.id == np_id));
    let desc = store.check_taint("/other/child").unwrap();
    assert!(!desc.iter().any(|t| t.id == np_id));

    let bounded = store.check_taint("/cluster-staging/x").unwrap();
    assert!(bounded.iter().all(|t| t.id != id));

    let tlist = store.list_taints(None, Some(TaintKind::Taint), false).unwrap();
    assert!(tlist.iter().any(|t| t.id == id));

    let plist = store.list_taints(Some("/cluster"), None, false).unwrap();
    assert!(plist.iter().all(|t| t.path.starts_with("/cluster")));

    let now = now_ms();
    store
        .resolve_taint(&id, "resolver", "fixed it", Some("commit-xyz"), now)
        .unwrap();
    let resolved = store.get_taint(&id).unwrap().unwrap();
    assert!(resolved.resolved_at.is_some());
    assert_eq!(resolved.resolved_by.as_deref(), Some("resolver"));
    assert_eq!(resolved.resolved_proof.as_deref(), Some("commit-xyz"));

    assert!(store.resolve_taint(&id, "r", "r", None, now).is_err());

    let after = store.check_taint("/cluster/nodes/a").unwrap();
    assert!(after.iter().all(|t| t.id != id));

    let fresh = make_taint("/cluster", "test", TaintKind::Taint, TaintEffect::Warn);
    store.create_taint(&fresh).unwrap();

    let hist = store.list_taints(None, None, true).unwrap();
    assert!(hist.iter().any(|t| t.id == id && t.resolved_at.is_some()));

    let mut expired = make_taint("/exp", "x", TaintKind::Taint, TaintEffect::Block);
    expired.expires_at = Some(now_ms() - 10_000);
    store.create_taint(&expired).unwrap();
    let ex_match = store.check_taint("/exp").unwrap();
    assert!(ex_match.iter().all(|t| t.id != expired.id));
}

#[test]
fn memory_storage_taint_conformance() {
    run_conformance(&mut MemoryStorage::new());
}

#[test]
fn memory_storage_keeps_reminders() {
    let mut store = MemoryStorage::default();
    let r = CreateReminder::new("t", "i", now_ms(), "a").into_reminder();
    store.save(&r).unwrap();
    assert_eq!(store.get(&r.id).unwrap().unwrap().title, "t");
    assert_eq!(store.list(&ReminderFilter::default()).unwrap().len(), 1);
    assert!(store.delete(&r.id).unwrap());
    assert!(store.get(&r.id).unwrap().is_none());
}

fn count_active<S: Storage>(s: &S) -> usize {
    s.list_taints(None, None, false).unwrap().len()
}

#[test]
fn memory_storage_is_a_storage() {
    let mut store = MemoryStorage::new();
    store.create_taint(&test_taint("t1", "/x")).unwrap();
    assert_eq!(count_active(&store), 1);
}
