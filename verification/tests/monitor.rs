use ntfs_reader_cli::journal::journal_csv_batch;
use ntfs_reader_cli::journal::journal_csv_header;
use ntfs_reader_cli::journal::journal_csv_line;
use ntfs_reader_cli::journal::journal_json_batch;
use ntfs_reader_cli::journal::journal_json_batch_pretty;
use ntfs_reader_cli::journal::journal_json_event;
use ntfs_reader_cli::journal::journal_json_event_pretty;
use ntfs_reader_cli::journal::JournalEvent;
use ntfs_reader_cli::journal::JournalMonitor;
use ntfs_reader_cli::journal::MonitorStep;

fn event(usn: i64, path: &str) -> JournalEvent {
    JournalEvent {
        usn,
        timestamp_ms: 1700000000000,
        file_id: format!("FileId({})", usn),
        parent_id: "ParentId(5)".to_string(),
        reason: 3,
        reason_str: "DATA_EXTEND | DATA_OVERWRITE".to_string(),
        path: path.to_string(),
    }
}

fn usns(events: &[JournalEvent]) -> Vec<i64> {
    events.iter().map(|e| e.usn).collect()
}

#[test]
fn batch_mode_drains_first_read_and_topup() {
    let mut m = JournalMonitor::new(false, None);
    let step = m.on_read(vec![event(1, "a"), event(2, "b")]);
    assert!(matches!(step, MonitorStep::TopUpRead));
    let step = m.on_read(vec![event(3, "c")]);
    assert!(matches!(step, MonitorStep::Finished));
    let batch = m.into_batch();
    assert_eq!(usns(&batch), vec![1, 2, 3]);
}

#[test]
fn batch_mode_empty_first_read_finishes_empty() {
    let mut m = JournalMonitor::new(false, Some(10));
    let step = m.on_read(Vec::new());
    assert!(matches!(step, MonitorStep::Finished));
    assert!(m.into_batch().is_empty());
}

#[test]
fn batch_mode_limit_caps_the_first_read() {
    let mut m = JournalMonitor::new(false, Some(1));
    let step = m.on_read(vec![event(1, "a"), event(2, "b")]);
    assert!(matches!(step, MonitorStep::Finished));
    let batch = m.into_batch();
    assert_eq!(usns(&batch), vec![1]);
}

#[test]
fn batch_mode_limit_spans_the_topup_read() {
    let mut m = JournalMonitor::new(false, Some(3));
    let step = m.on_read(vec![event(1, "a"), event(2, "b")]);
    assert!(matches!(step, MonitorStep::TopUpRead));
    let step = m.on_read(vec![event(3, "c"), event(4, "d")]);
    assert!(matches!(step, MonitorStep::Finished));
    let batch = m.into_batch();
    assert_eq!(usns(&batch), vec![1, 2, 3]);
}

#[test]
fn batch_mode_empty_topup_finishes() {
    let mut m = JournalMonitor::new(false, None);
    let step = m.on_read(vec![event(7, "x")]);
    assert!(matches!(step, MonitorStep::TopUpRead));
    let step = m.on_read(Vec::new());
    assert!(matches!(step, MonitorStep::Finished));
    assert_eq!(usns(&m.into_batch()), vec![7]);
}

#[test]
fn continuous_mode_emits_every_record_in_order() {
    let mut m = JournalMonitor::new(true, None);
    match m.on_read(vec![event(1, "a"), event(2, "b")]) {
        MonitorStep::Emit { events, first, done } => {
            assert_eq!(usns(&events), vec![1, 2]);
            assert!(first);
            assert!(!done);
        }
        _ => panic!("expected records to be emitted"),
    }
    assert!(matches!(m.on_read(Vec::new()), MonitorStep::Sleep));
    match m.on_read(vec![event(3, "c")]) {
        MonitorStep::Emit { events, first, done } => {
            assert_eq!(usns(&events), vec![3]);
            assert!(!first);
            assert!(!done);
        }
        _ => panic!("expected records to be emitted"),
    }
}

#[test]
fn continuous_mode_limit_stops_the_stream() {
    let mut m = JournalMonitor::new(true, Some(2));
    match m.on_read(vec![event(1, "a"), event(2, "b"), event(3, "c")]) {
        MonitorStep::Emit { events, first, done } => {
            assert_eq!(usns(&events), vec![1, 2]);
            assert!(first);
            assert!(done);
        }
        _ => panic!("expected records to be emitted"),
    }
}

#[test]
fn csv_header_and_line() {
    assert_eq!(
        journal_csv_header(),
        "usn,timestamp_ms,file_id,parent_id,reason,reason_str,path"
    );
    let e = event(42, "C:\\dir\\file.txt");
    assert_eq!(
        journal_csv_line(&e),
        "42,1700000000000,FileId(42),ParentId(5),3,DATA_EXTEND | DATA_OVERWRITE,C:\\dir\\file.txt"
    );
}

#[test]
fn csv_line_escapes_fields() {
    let mut e = event(-1, "C:\\with,comma");
    e.reason_str = "say \"hi\"".to_string();
    assert_eq!(
        journal_csv_line(&e),
        "-1,1700000000000,FileId(-1),ParentId(5),3,\"say \"\"hi\"\"\",\"C:\\with,comma\""
    );
}

#[test]
fn csv_batch_has_header_then_one_line_per_event() {
    let events = vec![event(1, "a"), event(2, "b")];
    let doc = journal_csv_batch(&events);
    let lines: Vec<&str> = doc.lines().collect();
    assert_eq!(lines.len(), 3);
    assert_eq!(lines[0], "usn,timestamp_ms,file_id,parent_id,reason,reason_str,path");
    assert!(lines[1].starts_with("1,"));
    assert!(lines[2].starts_with("2,"));
}

#[test]
fn json_event_is_a_compact_object() {
    let e = event(5, "C:\\a");
    assert_eq!(
        journal_json_event(&e),
        "{\"usn\":5,\"timestamp_ms\":1700000000000,\"file_id\":\"FileId(5)\",\
         \"parent_id\":\"ParentId(5)\",\"reason\":3,\
         \"reason_str\":\"DATA_EXTEND | DATA_OVERWRITE\",\"path\":\"C:\\\\a\"}"
    );
}

#[test]
fn json_batch_round_trips_in_order() {
    let mut e1 = event(1, "C:\\a\\b.txt");
    e1.reason_str = "quote \" and \\ backslash".to_string();
    let e2 = event(2, "C:\\c\nnewline");
    let events = vec![e1, e2];
    let doc = journal_json_batch(&events);
    let parsed: serde_json::Value = serde_json::from_str(&doc).unwrap();
    let arr = parsed.as_array().unwrap();
    assert_eq!(arr.len(), 2);
    for (v, e) in arr.iter().zip(events.iter()) {
        assert_eq!(v["usn"].as_i64().unwrap(), e.usn);
        assert_eq!(v["timestamp_ms"].as_u64().unwrap() as u128, e.timestamp_ms);
        assert_eq!(v["file_id"].as_str().unwrap(), e.file_id);
        assert_eq!(v["parent_id"].as_str().unwrap(), e.parent_id);
        assert_eq!(v["reason"].as_u64().unwrap(), e.reason as u64);
        assert_eq!(v["reason_str"].as_str().unwrap(), e.reason_str);
        assert_eq!(v["path"].as_str().unwrap(), e.path);
    }
}

#[test]
fn pretty_json_event_is_indented() {
    let e = event(5, "C:\\a");
    assert_eq!(
        journal_json_event_pretty(&e),
        "{\n  \"usn\": 5,\n  \"timestamp_ms\": 1700000000000,\n  \"file_id\": \"FileId(5)\",\n  \
         \"parent_id\": \"ParentId(5)\",\n  \"reason\": 3,\n  \
         \"reason_str\": \"DATA_EXTEND | DATA_OVERWRITE\",\n  \"path\": \"C:\\\\a\"\n}"
    );
}

#[test]
fn pretty_event_batch_parses_and_matches_compact() {
    let events = vec![event(1, "C:\\a"), event(2, "C:\\b")];
    let pretty = journal_json_batch_pretty(&events);
    let compact = journal_json_batch(&events);
    let a: serde_json::Value = serde_json::from_str(&pretty).unwrap();
    let b: serde_json::Value = serde_json::from_str(&compact).unwrap();
    assert_eq!(a, b);
    let empty: Vec<JournalEvent> = Vec::new();
    assert_eq!(journal_json_batch_pretty(&empty), "[]");
}

#[test]
fn json_batch_of_nothing_is_an_empty_array() {
    let events: Vec<JournalEvent> = Vec::new();
    assert_eq!(journal_json_batch(&events), "[]");
}

#[test]
fn negative_usn_renders_with_sign() {
    let e = event(-123, "x");
    let doc = journal_json_event(&e);
    assert!(doc.starts_with("{\"usn\":-123,"));
}
