//! Error taxonomy of the fetch pipeline.
//!
//! Structural errors (a malformed identifier in a direct request, an
//! unreadable manifest, an uncreatable destination) abort a whole run;
//! per-item errors inside a batch are reported and do not abort siblings.
use vstd::prelude::*;

verus! {

/// Everything that can go wrong while resolving and fetching extensions.
/// Outside failures (HTTP transport, JSON decoding, filesystem) are carried
/// as plain message strings so that the taxonomy stays a value type.
#[derive(Debug, Clone)]
pub enum VsixHarvesterError {
    /// The string was not `publisher.name` with exactly one `.` separating
    /// two non-empty parts; carries the offending input.
    InvalidExtensionId(String),
    /// Directory creation or file write failed; carries a description.
    IoError(String),
    /// Transport-level failure on an HTTP call; carries a description.
    HttpError(String),
    /// The registry response body did not match the expected shape; carries
    /// a description of the decode failure.
    JsonError(String),
    /// The registry query came back with a non-success status.
    ApiError(String),
    /// The query succeeded but yielded zero usable versions.
    NoVersionsAvailable,
    /// The artifact download failed; carries the extension identifier.
    DownloadError(String),
}

} // verus!
