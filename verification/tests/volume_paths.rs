use ntfs_reader_cli::journal;
use ntfs_reader_cli::mft;

#[test]
fn journal_bare_drive_letter() {
    assert_eq!(journal::normalize_volume_path("C:"), "\\\\?\\C:");
}

#[test]
fn journal_drive_letter_with_separator() {
    assert_eq!(journal::normalize_volume_path("C:\\"), "\\\\?\\C:");
}

#[test]
fn journal_lowercase_drive_letter() {
    assert_eq!(journal::normalize_volume_path("d:"), "\\\\?\\d:");
}

#[test]
fn mft_bare_drive_letter() {
    assert_eq!(mft::normalize_volume_path("C:"), "\\\\.\\C:");
}

#[test]
fn mft_drive_letter_with_separator() {
    assert_eq!(mft::normalize_volume_path("D:\\"), "\\\\.\\D:");
}

#[test]
fn qualified_path_passes_through() {
    assert_eq!(mft::normalize_volume_path("\\\\.\\C:"), "\\\\.\\C:");
    assert_eq!(journal::normalize_volume_path("\\\\?\\C:"), "\\\\?\\C:");
}

#[test]
fn surrounding_whitespace_is_trimmed() {
    assert_eq!(journal::normalize_volume_path("  C: \t"), "\\\\?\\C:");
    assert_eq!(mft::normalize_volume_path(" C:\\ "), "\\\\.\\C:");
}

#[test]
fn normalization_is_idempotent() {
    let inputs = ["C:", "C:\\", "\\\\.\\C:", "\\\\?\\C:", "some\\other\\path", ""];
    for v in inputs {
        let once = mft::normalize_volume_path(v);
        assert_eq!(mft::normalize_volume_path(&once), once);
        let once = journal::normalize_volume_path(v);
        assert_eq!(journal::normalize_volume_path(&once), once);
    }
}

#[test]
fn other_inputs_pass_through() {
    assert_eq!(mft::normalize_volume_path("C"), "C");
    assert_eq!(mft::normalize_volume_path("C:x"), "C:x");
    assert_eq!(mft::normalize_volume_path("ab\\"), "ab\\");
}
