use ntfs_reader_cli::errors::CliError;
use ntfs_reader_cli::filter::classify;
use ntfs_reader_cli::filter::compile_filter;
use ntfs_reader_cli::filter::filter_matches;
use ntfs_reader_cli::filter::PatternClass;

#[test]
fn star_is_glob() {
    assert!(matches!(classify("*.pdf"), PatternClass::Glob));
    assert!(matches!(classify("a?c"), PatternClass::Glob));
}

#[test]
fn glob_has_priority_over_expression_markers() {
    assert!(matches!(classify("^a*"), PatternClass::Glob));
    assert!(matches!(classify("a[b]*"), PatternClass::Glob));
    assert!(matches!(classify("a(b)?"), PatternClass::Glob));
}

#[test]
fn expression_markers_without_glob() {
    assert!(matches!(classify("^c:"), PatternClass::Expression));
    assert!(matches!(classify("a[bc]d"), PatternClass::Expression));
    assert!(matches!(classify("a(b)d"), PatternClass::Expression));
}

#[test]
fn plain_pattern_is_substring() {
    assert!(matches!(classify("report"), PatternClass::Substring));
    assert!(matches!(classify(""), PatternClass::Substring));
    assert!(matches!(classify("c^d"), PatternClass::Substring));
}

#[test]
fn no_pattern_matches_everything() {
    let f = compile_filter(None).unwrap();
    assert!(filter_matches(&f, "anything at all"));
    assert!(filter_matches(&f, ""));
}

#[test]
fn substring_match_is_case_insensitive() {
    let f = compile_filter(Some("REPORT")).unwrap();
    assert!(filter_matches(&f, "C:\\Users\\a\\report.pdf"));
    assert!(filter_matches(&f, "c:\\REPORT.txt"));
    assert!(!filter_matches(&f, "C:\\Users\\a\\other.pdf"));
}

#[test]
fn substring_lowercase_pattern_matches_uppercase_path() {
    let f = compile_filter(Some("report")).unwrap();
    assert!(filter_matches(&f, "C:\\USERS\\A\\REPORT.PDF"));
}

#[test]
fn glob_matches_expanded_pattern() {
    let f = compile_filter(Some("*.PDF")).unwrap();
    assert!(filter_matches(&f, "C:\\Users\\a\\report.pdf"));
    assert!(!filter_matches(&f, "C:\\Users\\a\\report.txt"));
}

#[test]
fn glob_question_mark_matches_one_character() {
    let f = compile_filter(Some("repor?.pdf")).unwrap();
    assert!(filter_matches(&f, "c:\\report.pdf"));
    assert!(filter_matches(&f, "c:\\reporx.pdf"));
    assert!(!filter_matches(&f, "c:\\repor.pdf"));
}

#[test]
fn glob_escapes_literal_dot() {
    let f = compile_filter(Some("a.b*")).unwrap();
    assert!(filter_matches(&f, "c:\\a.bc"));
    assert!(!filter_matches(&f, "c:\\axbc"));
}

#[test]
fn expression_is_compiled_case_insensitively() {
    let f = compile_filter(Some("^C:\\\\[AB]")).unwrap();
    assert!(filter_matches(&f, "C:\\a\\x"));
    assert!(filter_matches(&f, "c:\\B\\x"));
    assert!(!filter_matches(&f, "d:\\a\\x"));
}

#[test]
fn malformed_expression_is_a_compilation_failure() {
    let r = compile_filter(Some("a[bc"));
    match r {
        Err(CliError::FilterCompilationFailure { pattern }) => {
            assert_eq!(pattern, "a[bc");
        }
        _ => panic!("expected a filter-compilation failure"),
    }
}

#[test]
fn compilation_failure_message_names_the_pattern() {
    let e = compile_filter(Some("(unclosed")).unwrap_err();
    let msg = e.message();
    assert!(msg.contains("Invalid filter pattern"));
    assert!(msg.contains("(unclosed"));
}
