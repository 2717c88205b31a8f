use ntfs_reader_cli::errors::CliError;
use ntfs_reader_cli::filter::compile_filter;
use ntfs_reader_cli::mft::file_csv_batch;
use ntfs_reader_cli::mft::file_csv_header;
use ntfs_reader_cli::mft::file_csv_line;
use ntfs_reader_cli::mft::file_json_batch;
use ntfs_reader_cli::mft::file_json_batch_pretty;
use ntfs_reader_cli::mft::file_json_record;
use ntfs_reader_cli::mft::file_json_record_pretty;
use ntfs_reader_cli::mft::resolve_lookup;
use ntfs_reader_cli::mft::FileLister;
use ntfs_reader_cli::mft::FileRecord;

fn record(name: &str, path: &str, is_directory: bool) -> FileRecord {
    FileRecord {
        name: name.to_string(),
        path: path.to_string(),
        is_directory,
        size: 1024,
        created: Some("2024-01-02T03:04:05Z".to_string()),
        modified: None,
        accessed: None,
    }
}

fn names(records: &[FileRecord]) -> Vec<&str> {
    records.iter().map(|r| r.name.as_str()).collect()
}

#[test]
fn directories_only_and_filter_combine() {
    let f = compile_filter(Some("report")).unwrap();
    let mut l = FileLister::new(f, true, None);
    l.consider(record("reports", "C:\\Reports", true));
    l.consider(record("report.pdf", "C:\\report.pdf", false));
    l.consider(record("other", "C:\\Other", true));
    l.consider(record("old-reports", "C:\\old\\REPORTS", true));
    let out = l.into_records();
    assert_eq!(names(&out), vec!["reports", "old-reports"]);
    assert!(out.iter().all(|r| r.is_directory));
}

#[test]
fn listing_keeps_visitation_order() {
    let f = compile_filter(None).unwrap();
    let mut l = FileLister::new(f, false, None);
    l.consider(record("b", "C:\\b", false));
    l.consider(record("a", "C:\\a", true));
    l.consider(record("c", "C:\\c", false));
    let out = l.into_records();
    assert_eq!(names(&out), vec!["b", "a", "c"]);
}

#[test]
fn limit_caps_collected_records() {
    let f = compile_filter(Some("keep")).unwrap();
    let mut l = FileLister::new(f, false, Some(2));
    l.consider(record("k1", "C:\\keep1", false));
    l.consider(record("skip", "C:\\nope", false));
    l.consider(record("k2", "C:\\keep2", false));
    l.consider(record("k3", "C:\\keep3", false));
    let out = l.into_records();
    assert_eq!(names(&out), vec!["k1", "k2"]);
}

#[test]
fn lookup_of_missing_record_names_the_number() {
    let r = resolve_lookup(9001, None);
    match r {
        Err(CliError::RecordNotFound { record }) => {
            assert_eq!(record, 9001);
            let msg = CliError::RecordNotFound { record }.message();
            assert_eq!(msg, "Record 9001 not found or invalid");
        }
        _ => panic!("expected a record-not-found failure"),
    }
}

#[test]
fn lookup_of_present_record_returns_it() {
    let r = resolve_lookup(5, Some(record("a", "C:\\a", false))).unwrap();
    assert_eq!(r.name, "a");
}

#[test]
fn file_csv_header_and_line() {
    assert_eq!(file_csv_header(), "name,path,is_directory,size,created,modified,accessed");
    let r = record("a.txt", "C:\\a.txt", false);
    assert_eq!(
        file_csv_line(&r),
        "a.txt,C:\\a.txt,false,1024,2024-01-02T03:04:05Z,,"
    );
}

#[test]
fn file_csv_line_escapes_and_renders_directory_flag() {
    let r = record("my, dir", "C:\\my, dir", true);
    assert_eq!(
        file_csv_line(&r),
        "\"my, dir\",\"C:\\my, dir\",true,1024,2024-01-02T03:04:05Z,,"
    );
}

#[test]
fn file_csv_batch_has_header_then_lines() {
    let records = vec![record("a", "C:\\a", false), record("b", "C:\\b", true)];
    let doc = file_csv_batch(&records);
    let lines: Vec<&str> = doc.lines().collect();
    assert_eq!(lines.len(), 3);
    assert_eq!(lines[0], "name,path,is_directory,size,created,modified,accessed");
    assert!(lines[1].starts_with("a,"));
    assert!(lines[2].starts_with("b,"));
}

#[test]
fn file_json_record_renders_null_for_absent_timestamps() {
    let r = record("a", "C:\\a", false);
    assert_eq!(
        file_json_record(&r),
        "{\"name\":\"a\",\"path\":\"C:\\\\a\",\"is_directory\":false,\"size\":1024,\
         \"created\":\"2024-01-02T03:04:05Z\",\"modified\":null,\"accessed\":null}"
    );
}

#[test]
fn pretty_json_record_is_indented() {
    let r = record("a", "C:\\a", true);
    assert_eq!(
        file_json_record_pretty(&r),
        "{\n  \"name\": \"a\",\n  \"path\": \"C:\\\\a\",\n  \"is_directory\": true,\n  \
         \"size\": 1024,\n  \"created\": \"2024-01-02T03:04:05Z\",\n  \"modified\": null,\n  \
         \"accessed\": null\n}"
    );
}

#[test]
fn pretty_record_batch_parses_and_matches_compact() {
    let records = vec![record("a", "C:\\a", false), record("b", "C:\\b", true)];
    let pretty = file_json_batch_pretty(&records);
    let compact = file_json_batch(&records);
    let a: serde_json::Value = serde_json::from_str(&pretty).unwrap();
    let b: serde_json::Value = serde_json::from_str(&compact).unwrap();
    assert_eq!(a, b);
    let empty: Vec<FileRecord> = Vec::new();
    assert_eq!(file_json_batch_pretty(&empty), "[]");
}

#[test]
fn file_json_batch_round_trips() {
    let records = vec![record("a \"x\"", "C:\\a", false), record("b", "C:\\b\\c", true)];
    let doc = file_json_batch(&records);
    let parsed: serde_json::Value = serde_json::from_str(&doc).unwrap();
    let arr = parsed.as_array().unwrap();
    assert_eq!(arr.len(), 2);
    for (v, r) in arr.iter().zip(records.iter()) {
        assert_eq!(v["name"].as_str().unwrap(), r.name);
        assert_eq!(v["path"].as_str().unwrap(), r.path);
        assert_eq!(v["is_directory"].as_bool().unwrap(), r.is_directory);
        assert_eq!(v["size"].as_u64().unwrap(), r.size);
        assert_eq!(v["created"].as_str().unwrap(), r.created.as_deref().unwrap());
        assert!(v["modified"].is_null());
        assert!(v["accessed"].is_null());
    }
}
