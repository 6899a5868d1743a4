//! Parser for PHP "xtrace" function-call trace files (text format, version 4).
//!
//! The library classifies raw trace lines into record kinds, decodes the
//! tab-delimited fields of each kind into typed records, and correlates
//! function-entry lines with their matching function-exit lines into
//! completed call records, preserving nesting depth.

use vstd::prelude::*;

pub mod chars;
pub mod classify;
pub mod records;
pub mod correlate;
pub mod parse;
pub mod laws;

pub use classify::LineRegex;
pub use correlate::Correlator;
pub use classify::classify_line;
pub use records::FnType;
pub use records::ParseError;
pub use records::XtraceEntryRecord;
pub use records::XtraceExitRecord;
pub use records::XtraceFmtRecord;
pub use records::XtraceFnRecord;
pub use records::XtraceStartTimeRecord;
pub use records::XtraceVersionRecord;
pub use parse::XtraceFileRecord;
pub use parse::parse_xtrace_lines;
pub use parse::process_line;

verus! {

/// The `id` field of the trace file record is a caller-supplied opaque
/// identifier; the parser never inspects it. Relies on the `uuid` crate
/// only for the type itself.
#[verifier::external_type_specification]
#[verifier::external_body]
pub struct ExUuid(uuid::Uuid);

} // verus!
