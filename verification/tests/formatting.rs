use ntfs_reader_cli::errors::CliError;
use ntfs_reader_cli::format::escape_csv;
use ntfs_reader_cli::format::listing_format_check;
use ntfs_reader_cli::format::parse_output_format;
use ntfs_reader_cli::format::OutputFormat;

#[test]
fn plain_field_is_unquoted() {
    assert_eq!(escape_csv("plain.txt"), "plain.txt");
    assert_eq!(escape_csv(""), "");
    assert_eq!(escape_csv("with space"), "with space");
}

#[test]
fn field_with_comma_is_quoted() {
    assert_eq!(escape_csv("a,b"), "\"a,b\"");
}

#[test]
fn field_with_quote_is_quoted_and_doubled() {
    assert_eq!(escape_csv("q\"x"), "\"q\"\"x\"");
}

#[test]
fn field_with_newline_is_quoted() {
    assert_eq!(escape_csv("a\nb"), "\"a\nb\"");
}

#[test]
fn escaping_example_from_the_interface() {
    assert_eq!(escape_csv("My, File\"1.txt"), "\"My, File\"\"1.txt\"");
}

#[test]
fn format_keywords_parse_case_insensitively() {
    assert!(matches!(parse_output_format("JSON"), Ok(OutputFormat::Json)));
    assert!(matches!(parse_output_format("json-pretty"), Ok(OutputFormat::JsonPretty)));
    assert!(matches!(parse_output_format("Pretty"), Ok(OutputFormat::JsonPretty)));
    assert!(matches!(parse_output_format("CSV"), Ok(OutputFormat::Csv)));
    assert!(matches!(parse_output_format("bincode"), Ok(OutputFormat::Bincode)));
    assert!(matches!(parse_output_format("Bin"), Ok(OutputFormat::Bincode)));
    assert!(matches!(parse_output_format("msgpack"), Ok(OutputFormat::Msgpack)));
    assert!(matches!(parse_output_format("MessagePack"), Ok(OutputFormat::Msgpack)));
    assert!(matches!(parse_output_format("mp"), Ok(OutputFormat::Msgpack)));
}

#[test]
fn unknown_format_is_rejected_with_its_name() {
    let e = parse_output_format("xml").unwrap_err();
    match &e {
        CliError::UnrecognizedFormat { given } => assert_eq!(given, "xml"),
        _ => panic!("expected an unrecognized-format error"),
    }
    assert_eq!(e.message(), "Invalid output format: xml");
}

#[test]
fn binary_formats_are_rejected_for_listings() {
    assert!(listing_format_check(OutputFormat::Json).is_ok());
    assert!(listing_format_check(OutputFormat::JsonPretty).is_ok());
    assert!(listing_format_check(OutputFormat::Csv).is_ok());
    let e = listing_format_check(OutputFormat::Bincode).unwrap_err();
    assert!(matches!(e, CliError::UnsupportedFormatForOperation));
    assert!(listing_format_check(OutputFormat::Msgpack).is_err());
}

#[test]
fn error_messages_name_the_identifier() {
    let e = CliError::RecordNotFound { record: 42 };
    assert_eq!(e.message(), "Record 42 not found or invalid");
    let e = CliError::VolumeOpenFailure { volume: "\\\\.\\C:".to_string() };
    assert_eq!(
        e.message(),
        "Failed to open volume \\\\.\\C:. Make sure you're running as Administrator."
    );
    let e = CliError::JournalReadFailure;
    assert_eq!(e.message(), "Failed to read journal events");
}
