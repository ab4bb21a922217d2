use agentstategraph_substrate::reminders::error::ReminderError;
use agentstategraph_substrate::reminders::types::{Priority, ReminderFilter, ReminderStatus};
use agentstategraph_substrate::storage::indexeddb::hex_to_bytes;
use agentstategraph_substrate::storage::postgres::{
    pg_effect_from_str, pg_effect_to_str, pg_kind_from_str, pg_kind_to_str, pg_priority_from_i32,
    pg_priority_to_i32, pg_reminder_status_from_str, pg_reminder_status_to_str,
    pg_reminder_list_sql, pg_severity_from_str, pg_severity_to_str, DEFAULT_POOL_SIZE,
};
use agentstategraph_substrate::storage::sqlite::{
    effect_from_str, effect_to_str, kind_from_str, kind_to_str, prefix_params, priority_from_i64,
    priority_to_i64, reminder_list_sql, reminder_status_from_str, reminder_status_to_str,
    severity_from_str, severity_to_str, taint_list_sql,
};
use agentstategraph_substrate::storage::traits::StorageError;
use agentstategraph_substrate::taint::types::{TaintEffect, TaintKind, TaintSeverity};

const STATUSES: [ReminderStatus; 7] = [
    ReminderStatus::Pending,
    ReminderStatus::Due,
    ReminderStatus::AwaitingPermission,
    ReminderStatus::InProgress,
    ReminderStatus::Completed,
    ReminderStatus::Snoozed,
    ReminderStatus::Cancelled,
];

const PRIORITIES: [Priority; 5] = [
    Priority::Critical,
    Priority::High,
    Priority::Medium,
    Priority::Low,
    Priority::Minimal,
];

#[test]
fn default_pool_size_is_32() {
    assert_eq!(DEFAULT_POOL_SIZE, 32);
}

#[test]
fn pg_reminder_status_round_trip() {
    for s in STATUSES {
        let encoded = pg_reminder_status_to_str(s);
        let decoded = pg_reminder_status_from_str(encoded)
            .unwrap_or_else(|e| panic!("decode failed for {s:?}: {e:?}"));
        assert_eq!(decoded, s, "status round-trip failed for {s:?}");
    }
}

#[test]
fn pg_reminder_status_from_str_rejects_unknown() {
    assert!(pg_reminder_status_from_str("bogus").is_err());
}

#[test]
fn pg_unknown_texts_name_the_input() {
    match pg_reminder_status_from_str("bogus") {
        Err(StorageError::Backend(m)) => assert_eq!(m, "unknown reminder status: bogus"),
        other => panic!("unexpected: {:?}", other),
    }
    match pg_priority_from_i32(-7) {
        Err(StorageError::Backend(m)) => assert_eq!(m, "unknown priority value: -7"),
        other => panic!("unexpected: {:?}", other),
    }
    match pg_priority_from_i32(i32::MIN) {
        Err(StorageError::Backend(m)) => {
            assert_eq!(m, format!("unknown priority value: {}", i32::MIN))
        }
        other => panic!("unexpected: {:?}", other),
    }
    assert!(matches!(pg_kind_from_str("Taint"), Err(StorageError::Backend(_))));
    assert!(matches!(pg_effect_from_str(""), Err(StorageError::Backend(_))));
    assert!(matches!(pg_severity_from_str("urgent"), Err(StorageError::Backend(_))));
}

#[test]
fn pg_priority_round_trip() {
    for p in PRIORITIES {
        let encoded = pg_priority_to_i32(p);
        let decoded = pg_priority_from_i32(encoded)
            .unwrap_or_else(|e| panic!("decode failed for {p:?}: {e:?}"));
        assert_eq!(decoded, p, "priority round-trip failed for {p:?}");
    }
}

#[test]
fn pg_priority_from_i32_rejects_out_of_range() {
    assert!(pg_priority_from_i32(0).is_err());
    assert!(pg_priority_from_i32(6).is_err());
    assert!(pg_priority_from_i32(-1).is_err());
}

#[test]
fn pg_priority_values_match_ordinal() {
    assert_eq!(pg_priority_to_i32(Priority::Critical), 1);
    assert_eq!(pg_priority_to_i32(Priority::High), 2);
    assert_eq!(pg_priority_to_i32(Priority::Medium), 3);
    assert_eq!(pg_priority_to_i32(Priority::Low), 4);
    assert_eq!(pg_priority_to_i32(Priority::Minimal), 5);
}

#[test]
fn pg_reminder_status_strings_are_snake_case() {
    assert_eq!(
        pg_reminder_status_to_str(ReminderStatus::AwaitingPermission),
        "awaiting_permission"
    );
    assert_eq!(pg_reminder_status_to_str(ReminderStatus::InProgress), "in_progress");
}

#[test]
fn taint_texts_round_trip_in_both_backends() {
    for k in [TaintKind::Taint, TaintKind::Quarantine, TaintKind::Watch] {
        assert_eq!(pg_kind_from_str(pg_kind_to_str(k)).unwrap(), k);
        assert_eq!(kind_from_str(kind_to_str(k)).unwrap(), k);
        assert_eq!(kind_to_str(k), pg_kind_to_str(k));
    }
    for e in [
        TaintEffect::Warn,
        TaintEffect::Block,
        TaintEffect::Review,
        TaintEffect::Isolate,
        TaintEffect::Advisory,
    ] {
        assert_eq!(pg_effect_from_str(pg_effect_to_str(e)).unwrap(), e);
        assert_eq!(effect_from_str(effect_to_str(e)).unwrap(), e);
    }
    for s in [TaintSeverity::Low, TaintSeverity::Medium, TaintSeverity::High, TaintSeverity::Critical] {
        assert_eq!(pg_severity_from_str(pg_severity_to_str(s)).unwrap(), s);
        assert_eq!(severity_from_str(severity_to_str(s)).unwrap(), s);
    }
    assert_eq!(kind_to_str(TaintKind::Quarantine), "quarantine");
    assert_eq!(effect_to_str(TaintEffect::Isolate), "isolate");
    assert_eq!(severity_to_str(TaintSeverity::Critical), "critical");
}

#[test]
fn sqlite_reminder_codecs_round_trip() {
    for s in STATUSES {
        assert_eq!(reminder_status_from_str(reminder_status_to_str(s)).unwrap(), s);
        assert_eq!(reminder_status_to_str(s), pg_reminder_status_to_str(s));
    }
    for p in PRIORITIES {
        assert_eq!(priority_from_i64(priority_to_i64(p)).unwrap(), p);
    }
    match reminder_status_from_str("later") {
        Err(ReminderError::Store(m)) => assert_eq!(m, "unknown reminder status: later"),
        other => panic!("unexpected: {:?}", other),
    }
    match priority_from_i64(9) {
        Err(ReminderError::Store(m)) => assert_eq!(m, "unknown priority value: 9"),
        other => panic!("unexpected: {:?}", other),
    }
    match kind_from_str("nope") {
        Err(StorageError::Serialization(m)) | Err(StorageError::Backend(m)) => {
            assert!(m.ends_with("nope"), "{m}")
        }
        other => panic!("unexpected: {:?}", other),
    }
}

#[test]
fn hex_to_bytes_decodes_pairs() {
    assert_eq!(hex_to_bytes("00ff10Ab"), Some(vec![0x00, 0xff, 0x10, 0xab]));
    assert_eq!(hex_to_bytes("sg_0a0b"), Some(vec![0x0a, 0x0b]));
    assert_eq!(hex_to_bytes(""), Some(vec![]));
    assert_eq!(hex_to_bytes("sg_"), Some(vec![]));
    assert_eq!(hex_to_bytes("abc"), None);
    assert_eq!(hex_to_bytes("zz"), None);
    assert_eq!(hex_to_bytes("0g"), None);
    // Only hex digits: no sign, no other characters.
    assert_eq!(hex_to_bytes("+f"), None);
    assert_eq!(hex_to_bytes("\u{e9}"), None);
    assert_eq!(hex_to_bytes("a\u{e9}b"), None);
    assert_eq!(hex_to_bytes("f+"), None);
    assert_eq!(hex_to_bytes("-1"), None);
    // Only one `sg_` is stripped.
    assert_eq!(hex_to_bytes("sg_sg_"), None);
}

#[test]
fn stored_texts_are_distinct() {
    let kinds: Vec<&str> =
        [TaintKind::Taint, TaintKind::Quarantine, TaintKind::Watch].iter().map(|k| kind_to_str(*k)).collect();
    let effects: Vec<&str> = [
        TaintEffect::Warn,
        TaintEffect::Block,
        TaintEffect::Review,
        TaintEffect::Isolate,
        TaintEffect::Advisory,
    ]
    .iter()
    .map(|e| effect_to_str(*e))
    .collect();
    let severities: Vec<&str> =
        [TaintSeverity::Low, TaintSeverity::Medium, TaintSeverity::High, TaintSeverity::Critical]
            .iter()
            .map(|s| severity_to_str(*s))
            .collect();
    let statuses: Vec<&str> = STATUSES.iter().map(|s| reminder_status_to_str(*s)).collect();
    for list in [kinds, effects, severities, statuses] {
        for i in 0..list.len() {
            for j in 0..list.len() {
                assert_eq!(i == j, list[i] == list[j], "{:?}", list);
            }
        }
    }
}

#[test]
fn sqlite_listing_queries() {
    assert_eq!(
        reminder_list_sql(&ReminderFilter::default()),
        "SELECT * FROM reminders WHERE 1=1 ORDER BY priority ASC, due_at ASC"
    );
    let f = ReminderFilter {
        status: Some(ReminderStatus::Due),
        due_before: Some(5),
        ..Default::default()
    };
    assert_eq!(
        reminder_list_sql(&f),
        "SELECT * FROM reminders WHERE 1=1 AND status = :status AND due_at <= :due_before ORDER BY priority ASC, due_at ASC"
    );
    assert_eq!(
        taint_list_sql(None, None, true),
        "SELECT * FROM taints WHERE 1=1 ORDER BY created_at DESC"
    );
    assert_eq!(
        taint_list_sql(Some("/a"), Some(TaintKind::Watch), false),
        "SELECT * FROM taints WHERE 1=1 AND resolved_at IS NULL AND (path = :p OR path LIKE :plike) AND kind = :k ORDER BY created_at DESC"
    );
    assert_eq!(prefix_params("/nodes//"), ("/nodes".to_string(), "/nodes/%".to_string()));
    assert_eq!(prefix_params("/"), ("".to_string(), "/%".to_string()));
}

#[test]
fn postgres_listing_query_numbers_placeholders() {
    assert_eq!(
        pg_reminder_list_sql(&ReminderFilter::default()),
        "SELECT * FROM reminders WHERE tenant_id = $1 ORDER BY priority ASC, due_at ASC"
    );
    let f = ReminderFilter {
        priority_at_most: Some(Priority::High),
        created_by: Some("a".into()),
        due_before: Some(1),
        ..Default::default()
    };
    assert_eq!(
        pg_reminder_list_sql(&f),
        "SELECT * FROM reminders WHERE tenant_id = $1 AND priority <= $2 AND created_by = $3 AND due_at <= $4 ORDER BY priority ASC, due_at ASC"
    );
    let all = ReminderFilter {
        status: Some(ReminderStatus::Pending),
        priority_at_most: Some(Priority::Low),
        created_by: Some("a".into()),
        due_before: Some(1),
        ..Default::default()
    };
    assert!(pg_reminder_list_sql(&all).contains("due_at <= $5"));
}
