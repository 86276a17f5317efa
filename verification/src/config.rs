//! Fixed endpoints, protocol tokens and defaults of the registry client.
use vstd::prelude::*;

verus! {

/// The registry's query endpoint.
pub const API_URL: &'static str =
    "https://marketplace.visualstudio.com/_apis/public/gallery/extensionquery";

/// The base under which package downloads live.
pub const MARKETPLACE_URL: &'static str =
    "https://marketplace.visualstudio.com/_apis/public/gallery/publishers";

/// The API version token carried in the accept header of a query.
pub const MARKETPLACE_API_VERSION: &'static str = "3.0-preview.1";

/// The client identifier sent with every query.
pub const USER_AGENT: &'static str = "Offline VSIX/0.1.0";

/// The manifest file read when none is named.
pub const DEFAULT_FILE_NAME: &'static str = "extensions.json";

/// The destination directory used when none is named.
pub const DEFAULT_PATH: &'static str = "./extensions";

/// How many fetches may be in flight at once within one category.
pub const MAX_CONCURRENT_DOWNLOADS: usize = 5;

} // verus!
