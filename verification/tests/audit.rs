use ttgtiso_desk::audit::{journal_lines, last_records, record_count, AuditLog, AuditRecord};

#[test]
fn journal_records_keep_their_order_and_fields() {
    let mut log = AuditLog::new("test_audit.log");
    assert_eq!(log.log_file_path(), "test_audit.log");
    log.write_record(AuditRecord {
        timestamp: 1234567890,
        event_type: "TEST".to_string(),
        username: "vladimir".to_string(),
        ip_address: "127.0.0.1".to_string(),
        action: "test_action".to_string(),
        details: "testing audit subsystem".to_string(),
    });
    log.log_auth_failure("mallory", "10.0.0.9", "bad password");
    let records = log.take_records();
    assert_eq!(records.len(), 2);
    assert_eq!(records[0].username, "vladimir");
    assert_eq!(records[0].timestamp, 1234567890);
    assert_eq!(records[1].event_type, "AUTHENTICATION");
    assert_eq!(records[1].action, "login_failure");
    assert!(log.take_records().is_empty());
}

fn rec(t: u64) -> AuditRecord {
    AuditRecord {
        timestamp: t,
        event_type: "TEST".to_string(),
        username: "u".to_string(),
        ip_address: "127.0.0.1".to_string(),
        action: "a".to_string(),
        details: "d".to_string(),
    }
}

#[test]
fn the_last_records_are_read_oldest_first_past_lines_that_are_not_records() {
    let lines = vec![Some(rec(1)), Some(rec(2)), None, Some(rec(3)), None];
    assert_eq!(last_records(&lines, 2), vec![rec(2), rec(3)]);
    assert_eq!(last_records(&lines, 10), vec![rec(1), rec(2), rec(3)]);
    assert!(last_records(&lines, 0).is_empty());
    assert!(last_records(&Vec::new(), 5).is_empty());
}

#[test]
fn only_records_are_counted() {
    assert_eq!(record_count(&vec![Some(rec(1)), None, Some(rec(2))]), 2);
    assert_eq!(record_count(&Vec::new()), 0);
    assert_eq!(journal_lines("a\n\nb\r\n"), vec!["a".to_string(), "".to_string(), "b".to_string()]);
}

#[test]
fn an_appended_record_is_counted_and_read_back_last() {
    let mut lines = vec![Some(rec(1)), None];
    let before = record_count(&lines);
    lines.push(Some(rec(9)));
    assert_eq!(record_count(&lines), before + 1);
    assert_eq!(last_records(&lines, 1), vec![rec(9)]);
}
