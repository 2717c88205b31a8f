//! The failures the tool reports. Every failure is fatal to the invocation
//! that raised it; the message names the failing operation and the relevant
//! identifier.

use vstd::prelude::*;
use crate::text::append_str;
use crate::text::chars_to_string;
use crate::text::dec_str;
use crate::text::u64_to_dec_chars;

verus! {

#[derive(Clone, Debug)]
pub enum CliError {
    /// The volume path was invalid or the caller lacks the privilege to open it.
    VolumeOpenFailure { volume: String },
    /// The file table of an opened volume could not be loaded.
    TableLoadFailure,
    /// The change journal of an opened volume could not be opened.
    JournalOpenFailure,
    /// A read from an opened journal session failed.
    JournalReadFailure,
    /// A point lookup asked for a record number that does not exist.
    RecordNotFound { record: u64 },
    /// A filter pattern did not compile to a matching expression.
    FilterCompilationFailure { pattern: String },
    /// An encoder failed while serializing records.
    SerializationFailure,
    /// A binary format was requested for an operation that only supports text.
    UnsupportedFormatForOperation,
    /// The `--output` argument named no known format.
    UnrecognizedFormat { given: String },
}

/// The diagnostic line for each failure.
pub open spec fn message_spec(e: CliError) -> Seq<char> {
    match e {
        CliError::VolumeOpenFailure { volume } => "Failed to open volume "@ + volume@
            + ". Make sure you're running as Administrator."@,
        CliError::TableLoadFailure => "Failed to load MFT"@,
        CliError::JournalOpenFailure => "Failed to open USN journal"@,
        CliError::JournalReadFailure => "Failed to read journal events"@,
        CliError::RecordNotFound { record } => "Record "@ + dec_str(record as nat)
            + " not found or invalid"@,
        CliError::FilterCompilationFailure { pattern } => "Invalid filter pattern: "@ + pattern@,
        CliError::SerializationFailure => "Failed to serialize records"@,
        CliError::UnsupportedFormatForOperation =>
            "Output format not supported for this operation"@,
        CliError::UnrecognizedFormat { given } => "Invalid output format: "@ + given@,
    }
}

impl CliError {
    /// Render the diagnostic message for this failure.
    pub fn message(&self) -> (r: String)
        ensures
            r@ == message_spec(*self),
    {
        let mut out: Vec<char> = Vec::new();
        match self {
            CliError::VolumeOpenFailure { volume } => {
                append_str(&mut out, "Failed to open volume ");
                append_str(&mut out, volume.as_str());
                append_str(&mut out, ". Make sure you're running as Administrator.");
            },
            CliError::TableLoadFailure => {
                append_str(&mut out, "Failed to load MFT");
            },
            CliError::JournalOpenFailure => {
                append_str(&mut out, "Failed to open USN journal");
            },
            CliError::JournalReadFailure => {
                append_str(&mut out, "Failed to read journal events");
            },
            CliError::RecordNotFound { record } => {
                append_str(&mut out, "Record ");
                let mut digits = u64_to_dec_chars(*record);
                out.append(&mut digits);
                append_str(&mut out, " not found or invalid");
            },
            CliError::FilterCompilationFailure { pattern } => {
                append_str(&mut out, "Invalid filter pattern: ");
                append_str(&mut out, pattern.as_str());
            },
            CliError::SerializationFailure => {
                append_str(&mut out, "Failed to serialize records");
            },
            CliError::UnsupportedFormatForOperation => {
                append_str(&mut out, "Output format not supported for this operation");
            },
            CliError::UnrecognizedFormat { given } => {
                append_str(&mut out, "Invalid output format: ");
                append_str(&mut out, given.as_str());
            },
        }
        chars_to_string(out)
    }
}

} // verus!
