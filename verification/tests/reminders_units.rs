use chrono::{Datelike, NaiveTime, TimeZone, Utc};

use agentstategraph_substrate::reminders::error::ReminderError;
use agentstategraph_substrate::reminders::memory::MemoryReminderStore;
use agentstategraph_substrate::reminders::schedule::{Schedule, TimeOfDay, Weekday};
use agentstategraph_substrate::reminders::store::ReminderStore;
use agentstategraph_substrate::reminders::types::{
    CreateReminder, Priority, RefKind, Reminder, ReminderFilter, ReminderRef, ReminderStatus,
};
use agentstategraph_substrate::time::Timestamp;

fn now_ms() -> Timestamp {
    Utc::now().timestamp_millis()
}

fn due_in(secs: i64) -> Timestamp {
    now_ms() + secs * 1000
}

fn past(secs: i64) -> Timestamp {
    now_ms() - secs * 1000
}

const HOUR: i64 = 3_600_000;
const DAY: i64 = 86_400_000;

// --- Priority ---

#[test]
fn types_priority_ordering() {
    assert!(Priority::Critical < Priority::High);
    assert!(Priority::High < Priority::Medium);
    assert!(Priority::Medium < Priority::Low);
    assert!(Priority::Low < Priority::Minimal);
}

#[test]
fn priority_default_is_medium() {
    assert_eq!(Priority::default(), Priority::Medium);
}

#[test]
fn priority_numbers_run_one_to_five() {
    assert_eq!(Priority::Critical.as_u8(), 1);
    assert_eq!(Priority::High.as_u8(), 2);
    assert_eq!(Priority::Medium.as_u8(), 3);
    assert_eq!(Priority::Low.as_u8(), 4);
    assert_eq!(Priority::Minimal.as_u8(), 5);
}

// --- ReminderStatus ---

#[test]
fn terminal_statuses() {
    assert!(ReminderStatus::Completed.is_terminal());
    assert!(ReminderStatus::Cancelled.is_terminal());
    assert!(!ReminderStatus::Pending.is_terminal());
    assert!(!ReminderStatus::Due.is_terminal());
}

#[test]
fn actionable_statuses() {
    assert!(ReminderStatus::Due.is_actionable());
    assert!(ReminderStatus::AwaitingPermission.is_actionable());
    assert!(ReminderStatus::InProgress.is_actionable());
    assert!(!ReminderStatus::Pending.is_actionable());
    assert!(!ReminderStatus::Snoozed.is_actionable());
}

// --- Schedule::next_due ---

fn at(y: i32, mo: u32, d: u32, h: u32, mi: u32, s: u32) -> Timestamp {
    Utc.with_ymd_and_hms(y, mo, d, h, mi, s).unwrap().timestamp_millis()
}

#[test]
fn schedule_once_returns_none() {
    assert!(Schedule::Once.next_due(now_ms()).is_none());
}

#[test]
fn schedule_interval_advances_by_given_seconds() {
    let now = now_ms();
    let next = Schedule::Interval { every_seconds: 3600 }.next_due(now).unwrap();
    assert_eq!((next - now) / 1000, 3600);
}

#[test]
fn schedule_daily_advances_to_next_occurrence() {
    let time = TimeOfDay::from_hms_opt(9, 0, 0).unwrap();
    let now = now_ms();
    let next = Schedule::Daily { time }.next_due(now).unwrap();
    assert!(next > now);
    assert!(next <= now + 2 * DAY);
    let dt = chrono::DateTime::from_timestamp_millis(next).unwrap();
    assert_eq!(dt.time(), NaiveTime::from_hms_opt(9, 0, 0).unwrap());
}

#[test]
fn schedule_weekly_lands_on_correct_day() {
    let time = TimeOfDay::from_hms_opt(10, 0, 0).unwrap();
    let now = now_ms();
    let next = Schedule::Weekly { day: Weekday::Mon, time }.next_due(now).unwrap();
    assert!(next > now);
    let dt = chrono::DateTime::from_timestamp_millis(next).unwrap();
    assert_eq!(dt.weekday(), chrono::Weekday::Mon);
    assert_eq!(dt.time(), NaiveTime::from_hms_opt(10, 0, 0).unwrap());
}

#[test]
fn schedule_daily_exact_values() {
    let time = TimeOfDay::from_hms_opt(9, 0, 0).unwrap();
    let s = Schedule::Daily { time };
    // Before 09:00: same day.
    assert_eq!(s.next_due(at(2024, 3, 5, 8, 0, 0)), Some(at(2024, 3, 5, 9, 0, 0)));
    // Exactly 09:00: the next day.
    assert_eq!(s.next_due(at(2024, 3, 5, 9, 0, 0)), Some(at(2024, 3, 6, 9, 0, 0)));
    // After: the next day, across a month end.
    assert_eq!(s.next_due(at(2024, 2, 29, 23, 0, 0)), Some(at(2024, 3, 1, 9, 0, 0)));
    // Before the epoch.
    assert_eq!(s.next_due(at(1969, 12, 31, 10, 0, 0)), Some(at(1970, 1, 1, 9, 0, 0)));
}

#[test]
fn schedule_weekly_exact_values() {
    let time = TimeOfDay::from_hms_opt(10, 0, 0).unwrap();
    // 2024-03-04 is a Monday.
    let mon = Schedule::Weekly { day: Weekday::Mon, time };
    // On the Monday itself the next Monday is a week later.
    assert_eq!(mon.next_due(at(2024, 3, 4, 8, 0, 0)), Some(at(2024, 3, 11, 10, 0, 0)));
    assert_eq!(mon.next_due(at(2024, 3, 6, 12, 0, 0)), Some(at(2024, 3, 11, 10, 0, 0)));
    assert_eq!(mon.next_due(at(2024, 3, 10, 23, 0, 0)), Some(at(2024, 3, 11, 10, 0, 0)));
    let sun = Schedule::Weekly { day: Weekday::Sun, time };
    assert_eq!(sun.next_due(at(2024, 3, 9, 12, 0, 0)), Some(at(2024, 3, 10, 10, 0, 0)));
    for (day, cd) in [
        (Weekday::Mon, chrono::Weekday::Mon),
        (Weekday::Tue, chrono::Weekday::Tue),
        (Weekday::Wed, chrono::Weekday::Wed),
        (Weekday::Thu, chrono::Weekday::Thu),
        (Weekday::Fri, chrono::Weekday::Fri),
        (Weekday::Sat, chrono::Weekday::Sat),
        (Weekday::Sun, chrono::Weekday::Sun),
    ] {
        assert_eq!(day.num_days_from_monday(), cd.num_days_from_monday());
        for start in [at(1900, 1, 1, 0, 0, 0), at(1969, 7, 20, 20, 17, 0), at(2031, 12, 31, 23, 59, 59)] {
            let next = Schedule::Weekly { day, time }.next_due(start).unwrap();
            let dt = chrono::DateTime::from_timestamp_millis(next).unwrap();
            assert_eq!(dt.weekday(), cd);
            assert!(next > start && next - start <= 8 * DAY);
        }
    }
}

#[test]
fn schedule_fits_guards_the_range() {
    assert!(Schedule::Interval { every_seconds: 60 }.fits(now_ms()));
    assert!(!Schedule::Interval { every_seconds: u64::MAX / 2 }.fits(now_ms()));
    assert!(Schedule::Once.fits(now_ms()));
}

#[test]
fn time_of_day_bounds() {
    assert!(TimeOfDay::from_hms_opt(24, 0, 0).is_none());
    assert!(TimeOfDay::from_hms_opt(23, 60, 0).is_none());
    assert!(TimeOfDay::from_hms_opt(23, 59, 60).is_none());
    assert_eq!(TimeOfDay::from_hms_opt(23, 59, 59).unwrap().millis(), 86_399_000);
    assert_eq!(TimeOfDay::from_millis_opt(86_399_999).unwrap().millis(), 86_399_999);
    assert!(TimeOfDay::from_millis_opt(86_400_000).is_none());
}

// --- ReminderRef builders ---

#[test]
fn ref_builders_set_kind_and_stale_false() {
    let b = ReminderRef::branch("feature/x", "Feature X cleanup");
    assert_eq!(b.kind, RefKind::Branch);
    assert!(!b.stale);
    assert_eq!(b.label.as_deref(), Some("Feature X cleanup"));

    let t = ReminderRef::task("t-042", "Deploy task");
    assert_eq!(t.kind, RefKind::Task);
    assert!(!t.stale);

    let sp = ReminderRef::state_path("/_sessions/dev-server");
    assert_eq!(sp.kind, RefKind::StatePath);
    assert!(sp.label.is_none());
}

#[test]
fn ref_stale_can_be_set() {
    let mut r = ReminderRef::memory("mem-001");
    assert!(!r.stale);
    r.stale = true;
    assert!(r.stale);
}

#[test]
fn external_ref_kind_carries_scheme() {
    let r = ReminderRef::external("https://grafana.internal/d/latency", "https");
    if let RefKind::External { scheme } = &r.kind {
        assert_eq!(scheme, "https");
    } else {
        panic!("expected External kind");
    }
}

#[test]
fn all_ref_builders_keep_id_and_label() {
    let refs = vec![
        (ReminderRef::branch("b", "branch"), RefKind::Branch, Some("branch")),
        (ReminderRef::memory("mem-key"), RefKind::Memory, None),
        (ReminderRef::plan("plan-1", "My plan"), RefKind::Plan, Some("My plan")),
        (ReminderRef::task("t-01", "Task 1"), RefKind::Task, Some("Task 1")),
        (ReminderRef::state_path("/_sessions/srv"), RefKind::StatePath, None),
    ];
    for (r, kind, label) in refs {
        assert_eq!(r.kind, kind);
        assert_eq!(r.label.as_deref(), label);
        assert!(!r.stale);
    }
    let e = ReminderRef::external("https://example.com", "https");
    assert_eq!(e.id, "https://example.com");
    assert!(e.label.is_none());
}

// --- CreateReminder / into_reminder ---

#[test]
fn create_reminder_builder_defaults() {
    let cr = CreateReminder::new("title", "do the thing", due_in(3600), "agent/test");
    assert!(cr.autonomous);
    assert_eq!(cr.priority, Priority::Medium);
    assert!(cr.schedule.is_none());
    assert!(cr.refs.is_empty());
    assert!(cr.tags.is_empty());
}

#[test]
fn into_reminder_generates_id_and_pending_status() {
    let due = due_in(3600);
    let r = CreateReminder::new("test", "instructions", due, "agent/a").into_reminder();
    assert!(!r.id.is_empty());
    assert_eq!(r.status, ReminderStatus::Pending);
    assert_eq!(r.due_at, due);
    assert!(r.executions.is_empty());
}

#[test]
fn into_reminder_ids_are_uuids_and_fresh() {
    let a = CreateReminder::new("a", "i", due_in(1), "x").into_reminder();
    let b = CreateReminder::new("b", "i", due_in(1), "x").into_reminder();
    assert_eq!(a.id.len(), 36);
    assert_eq!(a.id.matches('-').count(), 4);
    let chars: Vec<char> = a.id.chars().collect();
    assert_eq!(chars[14], '4');
    assert!(matches!(chars[19], '8' | '9' | 'a' | 'b'));
    for (i, c) in chars.iter().enumerate() {
        if [8, 13, 18, 23].contains(&i) {
            assert_eq!(*c, '-');
        } else {
            assert!(c.is_ascii_hexdigit() && !c.is_ascii_uppercase());
        }
    }
    assert_ne!(a.id, b.id);
    let before = now_ms();
    let c = CreateReminder::new("c", "i", due_in(1), "x").into_reminder();
    assert!(c.created_at >= before && c.created_at <= now_ms());
}

#[test]
fn into_reminder_with_uses_given_id_and_time() {
    let r = CreateReminder::new("t", "i", 5, "a").into_reminder_with("rid".to_string(), 7);
    assert_eq!(r.id, "rid");
    assert_eq!(r.created_at, 7);
    assert_eq!(r.due_at, 5);
    assert!(r.snoozed_until.is_none());
}

#[test]
fn create_reminder_builder_chain() {
    let due = due_in(100);
    let r = CreateReminder::new("t", "i", due, "a")
        .with_priority(Priority::Critical)
        .with_autonomous(false)
        .with_tags(vec!["cleanup".into()])
        .with_schedule(Schedule::Interval { every_seconds: 86400 })
        .with_refs(vec![ReminderRef::branch("feat/x", "Feature X")])
        .with_commands(vec!["cargo test".into()])
        .into_reminder();

    assert_eq!(r.priority, Priority::Critical);
    assert!(!r.autonomous);
    assert_eq!(r.tags, vec!["cleanup"]);
    assert!(matches!(r.schedule, Some(Schedule::Interval { .. })));
    assert_eq!(r.refs.len(), 1);
    assert_eq!(r.commands, vec!["cargo test"]);
}

// --- ReminderFilter::matches ---

fn make_reminder(status: ReminderStatus, priority: Priority, due_at: Timestamp) -> Reminder {
    let mut r = CreateReminder::new("t", "i", due_at, "agent/a")
        .with_priority(priority)
        .into_reminder();
    r.status = status;
    r
}

#[test]
fn filter_by_status() {
    let r = make_reminder(ReminderStatus::Due, Priority::Medium, past(1));
    assert!(ReminderFilter { status: Some(ReminderStatus::Due), ..Default::default() }.matches(&r));
    assert!(!ReminderFilter { status: Some(ReminderStatus::Pending), ..Default::default() }
        .matches(&r));
}

#[test]
fn filter_by_priority_at_most() {
    let r = make_reminder(ReminderStatus::Due, Priority::High, past(1));
    assert!(ReminderFilter { priority_at_most: Some(Priority::Medium), ..Default::default() }
        .matches(&r));
    assert!(!ReminderFilter { priority_at_most: Some(Priority::Critical), ..Default::default() }
        .matches(&r));
    assert!(ReminderFilter { priority_at_most: Some(Priority::High), ..Default::default() }
        .matches(&r));
}

#[test]
fn filter_by_due_before() {
    let now = now_ms();
    let r = make_reminder(ReminderStatus::Pending, Priority::Medium, now + 2 * HOUR);
    assert!(!ReminderFilter { due_before: Some(now + HOUR), ..Default::default() }.matches(&r));
    assert!(ReminderFilter { due_before: Some(now + 3 * HOUR), ..Default::default() }.matches(&r));
    assert!(ReminderFilter { due_before: Some(now + 2 * HOUR), ..Default::default() }.matches(&r));
}

#[test]
fn filter_by_created_by() {
    let r = make_reminder(ReminderStatus::Pending, Priority::Medium, due_in(100));
    assert!(ReminderFilter { created_by: Some("agent/a".into()), ..Default::default() }.matches(&r));
    assert!(!ReminderFilter { created_by: Some("agent/b".into()), ..Default::default() }
        .matches(&r));
}

#[test]
fn filter_by_ref_id() {
    let mut r = make_reminder(ReminderStatus::Pending, Priority::Medium, due_in(100));
    r.refs.push(ReminderRef::branch("feature/web-demo", "web demo"));
    assert!(ReminderFilter { ref_id: Some("feature/web-demo".into()), ..Default::default() }
        .matches(&r));
    assert!(!ReminderFilter { ref_id: Some("other-branch".into()), ..Default::default() }
        .matches(&r));
}

#[test]
fn filter_by_tags_all_must_match() {
    let mut r = make_reminder(ReminderStatus::Pending, Priority::Medium, due_in(100));
    r.tags = vec!["cleanup".into(), "infra".into()];
    assert!(ReminderFilter { tags: vec!["cleanup".into()], ..Default::default() }.matches(&r));
    assert!(ReminderFilter { tags: vec!["cleanup".into(), "infra".into()], ..Default::default() }
        .matches(&r));
    assert!(!ReminderFilter { tags: vec!["cleanup".into(), "missing".into()], ..Default::default() }
        .matches(&r));
}

#[test]
fn empty_filter_matches_everything() {
    let r = make_reminder(ReminderStatus::Due, Priority::Critical, past(1));
    assert!(ReminderFilter::default().matches(&r));
}

// --- MemoryReminderStore ---

fn make(title: &str, priority: Priority, due_secs: i64) -> Reminder {
    CreateReminder::new(title, "instructions", due_in(due_secs), "agent/test")
        .with_priority(priority)
        .into_reminder()
}

#[test]
fn save_and_get_roundtrip() {
    let mut store = MemoryReminderStore::new();
    let r = make("test", Priority::Medium, 60);
    store.save(&r).unwrap();
    let fetched = store.get(&r.id).unwrap().unwrap();
    assert_eq!(fetched.id, r.id);
    assert_eq!(fetched.title, "test");
}

#[test]
fn get_nonexistent_returns_none() {
    let store = MemoryReminderStore::new();
    assert!(store.get("no-such-id").unwrap().is_none());
}

#[test]
fn update_mutates_record() {
    let mut store = MemoryReminderStore::new();
    let mut r = make("original", Priority::Low, 60);
    store.save(&r).unwrap();
    r.title = "updated".into();
    store.update(&r).unwrap();
    assert_eq!(store.get(&r.id).unwrap().unwrap().title, "updated");
}

#[test]
fn update_nonexistent_returns_not_found() {
    let mut store = MemoryReminderStore::new();
    let r = make("x", Priority::Low, 60);
    assert!(matches!(store.update(&r), Err(ReminderError::NotFound(_))));
}

#[test]
fn delete_returns_true_on_success_false_when_missing() {
    let mut store = MemoryReminderStore::new();
    let r = make("x", Priority::Low, 60);
    store.save(&r).unwrap();
    assert!(store.delete(&r.id).unwrap());
    assert!(!store.delete(&r.id).unwrap());
}

#[test]
fn save_overwrites_same_id() {
    let mut store = MemoryReminderStore::new();
    let mut r = make("first", Priority::Low, 60);
    store.save(&r).unwrap();
    r.title = "second".into();
    store.save(&r).unwrap();
    let all = store.list(&ReminderFilter::default()).unwrap();
    assert_eq!(all.len(), 1);
    assert_eq!(all[0].title, "second");
}

#[test]
fn list_ordered_by_priority_then_due_at() {
    let mut store = MemoryReminderStore::new();
    let a = make("low-later", Priority::Low, 120);
    let b = make("high-later", Priority::High, 120);
    let c = make("high-sooner", Priority::High, 60);
    for r in [&a, &b, &c] {
        store.save(r).unwrap();
    }
    let results = store.list(&ReminderFilter::default()).unwrap();
    assert_eq!(results[0].title, "high-sooner");
    assert_eq!(results[1].title, "high-later");
    assert_eq!(results[2].title, "low-later");
}

#[test]
fn list_filters_by_status() {
    let mut store = MemoryReminderStore::new();
    let mut r1 = make("due", Priority::Medium, -10);
    r1.status = ReminderStatus::Due;
    let r2 = make("pending", Priority::Medium, 60);
    store.save(&r1).unwrap();
    store.save(&r2).unwrap();
    let results = store
        .list(&ReminderFilter { status: Some(ReminderStatus::Due), ..Default::default() })
        .unwrap();
    assert_eq!(results.len(), 1);
    assert_eq!(results[0].title, "due");
}
