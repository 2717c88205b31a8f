//! Verified core of an NTFS volume inspection tool.
//!
//! The library holds the logic of the tool: volume-path normalization, the
//! filter-pattern compiler, the record formatters (CSV and JSON), the
//! journal-monitor state machine, the file-listing selection rules and the
//! point-lookup resolution. Volume I/O, the change-journal reads and the
//! binary serializers live outside the library and hand it plain values.

pub mod errors;
pub mod filter;
pub mod format;
pub mod journal;
pub mod mft;
pub mod text;
