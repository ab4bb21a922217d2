use chrono::Utc;

use agentstategraph_substrate::taint::check::{ancestor_candidates, evaluate_access};
use agentstategraph_substrate::taint::types::{
    ConfidenceBand, MetaItem, MetaValue, Taint, TaintEffect, TaintKind, TaintMetadata,
    TaintSeverity,
};
use agentstategraph_substrate::time::Timestamp;

fn now_ms() -> Timestamp {
    Utc::now().timestamp_millis()
}

/// Where a confidence value falls against the review gate (0.9).
fn band(confidence: f64) -> ConfidenceBand {
    if confidence < 0.0 {
        ConfidenceBand::Negative
    } else if confidence < 0.9 {
        ConfidenceBand::BelowReview
    } else {
        ConfidenceBand::AtLeastReview
    }
}

fn make(path: &str, name: &str, kind: TaintKind, effect: TaintEffect, propagate: bool) -> Taint {
    Taint {
        id: format!("t-{name}"),
        path: path.into(),
        name: name.into(),
        kind,
        effect,
        severity: TaintSeverity::Medium,
        reason: "test".into(),
        agent_id: "test-agent".into(),
        commit_id: String::new(),
        created_at: now_ms(),
        expires_at: None,
        resolved_at: None,
        resolved_by: None,
        resolved_reason: None,
        resolved_proof: None,
        propagate,
        metadata: TaintMetadata::new(),
    }
}

fn allowlist(allowed: &[&str]) -> MetaValue {
    MetaValue::Array(allowed.iter().map(|s| MetaItem::Str(s.to_string())).collect())
}

fn quarantine(path: &str, name: &str, allowed: &[&str]) -> Taint {
    let mut t = make(path, name, TaintKind::Quarantine, TaintEffect::Block, true);
    t.metadata.insert("authorized_agents", allowlist(allowed));
    t
}

#[test]
fn empty_candidates_allows_write() {
    let c = evaluate_access("/x", "agent-1", band(0.5), &[], now_ms());
    assert!(c.can_write);
    assert!(!c.tainted && !c.quarantined && !c.watched);
    assert!(!c.review_required);
}

#[test]
fn negative_confidence_is_refused_even_without_taints() {
    let c = evaluate_access("/x", "agent-1", band(-0.1), &[], now_ms());
    assert!(!c.can_write);
    assert!(!c.tainted);
}

#[test]
fn block_effect_denies_write() {
    let ts = vec![make("/cluster", "down", TaintKind::Taint, TaintEffect::Block, true)];
    let c = evaluate_access("/cluster/nodes/a", "agent-1", band(1.0), &ts, now_ms());
    assert!(c.tainted);
    assert!(!c.can_write);
    assert_eq!(c.taints.len(), 1);
    assert_eq!(c.taints[0].name, "down");
}

#[test]
fn review_effect_requires_high_confidence() {
    let ts = vec![make("/cluster", "unstable", TaintKind::Taint, TaintEffect::Review, true)];
    let c_low = evaluate_access("/cluster/x", "agent-1", band(0.5), &ts, now_ms());
    assert!(c_low.review_required);
    assert!(!c_low.can_write);
    let c_high = evaluate_access("/cluster/x", "agent-1", band(0.95), &ts, now_ms());
    assert!(c_high.can_write);
}

#[test]
fn review_respects_full_confidence_boundary() {
    let ts = vec![make("/x", "rev", TaintKind::Taint, TaintEffect::Review, true)];
    assert!(evaluate_access("/x", "a", band(0.9), &ts, now_ms()).can_write);
    assert!(!evaluate_access("/x", "a", band(0.89999), &ts, now_ms()).can_write);
}

#[test]
fn quarantine_blocks_unauthorized() {
    let ts = vec![quarantine("/cluster", "sec", &["agent/security"])];
    let c = evaluate_access("/cluster/a", "agent-1", band(1.0), &ts, now_ms());
    assert!(c.quarantined);
    assert!(!c.can_write);
    assert_eq!(c.authorized_agents, vec!["agent/security".to_string()]);
}

#[test]
fn quarantine_passes_authorized() {
    let ts = vec![quarantine("/cluster", "sec", &["agent/security"])];
    let c = evaluate_access("/cluster/a", "agent/security", band(1.0), &ts, now_ms());
    assert!(c.quarantined);
    assert!(c.can_write);
}

#[test]
fn quarantine_allowlists_union_without_duplicates() {
    let ts = vec![
        quarantine("/cluster", "q1", &["agent/a", "agent/b"]),
        quarantine("/cluster/x", "q2", &["agent/b", "agent/c"]),
    ];
    let c = evaluate_access("/cluster/x", "agent/b", band(1.0), &ts, now_ms());
    assert_eq!(
        c.authorized_agents,
        vec!["agent/a".to_string(), "agent/b".to_string(), "agent/c".to_string()]
    );
    assert!(c.can_write);
    // Authorized by one quarantine only: still denied.
    let c = evaluate_access("/cluster/x", "agent/a", band(1.0), &ts, now_ms());
    assert!(!c.can_write);
    assert_eq!(c.quarantines.len(), 2);
}

#[test]
fn ancestor_taint_propagates() {
    let ts = vec![make("/cluster/nodes/picoup2", "disk", TaintKind::Taint, TaintEffect::Warn, true)];
    let c = evaluate_access("/cluster/nodes/picoup2/services/spark", "a", band(1.0), &ts, now_ms());
    assert!(c.tainted);
    assert!(c.can_write);
}

#[test]
fn non_propagating_ancestor_does_not_apply() {
    let ts = vec![make("/cluster", "leaf", TaintKind::Taint, TaintEffect::Block, false)];
    let c = evaluate_access("/cluster/nodes/a", "a", band(1.0), &ts, now_ms());
    assert!(!c.tainted);
    assert!(c.can_write);
    // On the path itself it still applies.
    let c = evaluate_access("/cluster", "a", band(1.0), &ts, now_ms());
    assert!(c.tainted);
    assert!(!c.can_write);
}

#[test]
fn ancestor_prefix_match_respects_path_boundary() {
    let ts = vec![make("/cluster", "x", TaintKind::Taint, TaintEffect::Block, true)];
    let c = evaluate_access("/cluster-staging/a", "a", band(1.0), &ts, now_ms());
    assert!(!c.tainted);
}

#[test]
fn trailing_slash_taint_path_matches_descendants() {
    let ts = vec![make("/cluster/", "x", TaintKind::Taint, TaintEffect::Block, true)];
    let now = now_ms();
    assert_eq!(ancestor_candidates("/cluster/a", &ts, now).len(), 1);
    assert_eq!(ancestor_candidates("/clusterx", &ts, now).len(), 0);
}

#[test]
fn resolved_taint_is_ignored() {
    let mut t = make("/x", "rev", TaintKind::Taint, TaintEffect::Block, true);
    t.resolved_at = Some(now_ms() - 1000);
    let c = evaluate_access("/x", "a", band(1.0), &[t], now_ms());
    assert!(!c.tainted);
    assert!(c.can_write);
}

#[test]
fn expired_taint_is_ignored() {
    let mut t = make("/x", "rev", TaintKind::Taint, TaintEffect::Block, true);
    t.expires_at = Some(now_ms() - 1000);
    let c = evaluate_access("/x", "a", band(1.0), &[t], now_ms());
    assert!(!c.tainted);
    assert!(c.can_write);
}

#[test]
fn isolate_effect_flags_visibility_without_blocking_writes() {
    let ts = vec![make("/secret", "iso", TaintKind::Taint, TaintEffect::Isolate, true)];
    let c = evaluate_access("/secret/x", "a", band(1.0), &ts, now_ms());
    assert!(c.tainted);
    assert!(c.isolated);
    assert!(c.can_write);
}

#[test]
fn watch_is_advisory_only() {
    let ts = vec![make("/cluster", "perf", TaintKind::Watch, TaintEffect::Advisory, true)];
    let c = evaluate_access("/cluster/x", "a", band(0.0), &ts, now_ms());
    assert!(c.watched);
    assert!(c.can_write);
    assert!(!c.review_required);
    assert_eq!(c.watches.len(), 1);
}

#[test]
fn block_trumps_review() {
    let ts = vec![
        make("/cluster", "rev", TaintKind::Taint, TaintEffect::Review, true),
        make("/cluster", "blk", TaintKind::Taint, TaintEffect::Block, true),
    ];
    let c = evaluate_access("/cluster/x", "a", band(1.0), &ts, now_ms());
    assert!(!c.can_write);
}

#[test]
fn ancestor_candidates_keeps_order_and_filters() {
    let now = now_ms();
    let mut gone = make("/a", "gone", TaintKind::Taint, TaintEffect::Warn, true);
    gone.resolved_at = Some(now - 1);
    let ts = vec![
        make("/a", "one", TaintKind::Taint, TaintEffect::Warn, true),
        gone,
        make("/a/b", "two", TaintKind::Watch, TaintEffect::Advisory, false),
        make("/z", "far", TaintKind::Taint, TaintEffect::Warn, true),
    ];
    let got = ancestor_candidates("/a/b", &ts, now);
    let names: Vec<&str> = got.iter().map(|t| t.name.as_str()).collect();
    assert_eq!(names, vec!["one", "two"]);
}

// --- types ---

#[test]
fn is_active_honors_resolved_and_expired() {
    let base = make("/x", "n", TaintKind::Taint, TaintEffect::Warn, true);
    let now = now_ms();
    assert!(base.is_active(now));

    let mut expired = base.clone();
    expired.expires_at = Some(now - 10_000);
    assert!(!expired.is_active(now));

    let mut at_expiry = base.clone();
    at_expiry.expires_at = Some(now);
    assert!(!at_expiry.is_active(now));

    let mut resolved = base.clone();
    resolved.resolved_at = Some(now - 1000);
    assert!(!resolved.is_active(now));
}

#[test]
fn authorized_agents_parses_metadata() {
    let mut t = make("/x", "sec", TaintKind::Quarantine, TaintEffect::Block, true);
    t.metadata
        .insert("authorized_agents", allowlist(&["agent/security", "human/sre-lead"]));
    assert_eq!(
        t.authorized_agents(),
        vec!["agent/security".to_string(), "human/sre-lead".to_string()]
    );
}

#[test]
fn authorized_agents_skips_non_strings_and_other_shapes() {
    let mut t = make("/x", "sec", TaintKind::Quarantine, TaintEffect::Block, true);
    assert!(t.authorized_agents().is_empty());
    t.metadata.insert(
        "authorized_agents",
        MetaValue::Array(vec![
            MetaItem::Str("a".into()),
            MetaItem::Json("7".into()),
            MetaItem::Str("b".into()),
        ]),
    );
    assert_eq!(t.authorized_agents(), vec!["a".to_string(), "b".to_string()]);
    t.metadata.insert("authorized_agents", MetaValue::Json("\"a\"".into()));
    assert!(t.authorized_agents().is_empty());
}

#[test]
fn metadata_insert_replaces_and_get_finds() {
    let mut m = TaintMetadata::new();
    assert!(m.get("k").is_none());
    m.insert("k", MetaValue::Json("1".into()));
    m.insert("j", MetaValue::Json("2".into()));
    m.insert("k", MetaValue::Json("3".into()));
    assert_eq!(m.get("k"), Some(&MetaValue::Json("3".into())));
    assert_eq!(m.get("j"), Some(&MetaValue::Json("2".into())));
    assert_eq!(m.entries().len(), 2);
    assert_eq!(m.entries()[0].key, "k");
    assert_eq!(TaintMetadata::default(), TaintMetadata::new());
}

#[test]
fn taint_defaults() {
    assert_eq!(TaintSeverity::default(), TaintSeverity::Medium);
    assert!(agentstategraph_substrate::taint::types::default_true());
    assert_eq!(
        agentstategraph_substrate::taint::types::default_watch_direction(),
        agentstategraph_substrate::taint::types::WatchDirection::Above
    );
}
