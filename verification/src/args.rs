//! The plain configuration record the core consumes. Parsing the command
//! line and the environment into it is the surrounding application's job.
use vstd::prelude::*;

verus! {

/// One run's configuration: where the manifest lies, where artifacts go,
/// cache and concurrency policy, and the optional direct-download request.
pub struct Args {
    /// Path of the manifest listing the requested identifiers.
    pub input: String,
    /// Directory artifacts are written to.
    pub destination: String,
    /// Redownload even when the computed path already exists.
    pub no_cache: bool,
    /// Forward proxy URL for all network calls, if any.
    pub proxy: Option<String>,
    /// Verbose logging.
    pub verbose: bool,
    /// A single `publisher.name` to fetch instead of reading the manifest.
    pub download: Option<String>,
    /// Platform category for the direct download, as a manifest-field name.
    pub arch: Option<String>,
    /// Engine version the chosen versions must be compatible with, if any.
    pub engine_version: Option<String>,
    /// Run fetches one at a time instead of the default window.
    pub serial: bool,
}

} // verus!
