//! The Anthropic Messages API.

pub mod client;
pub mod client_laws;
pub mod event_laws;
pub mod event_map;
pub mod models;
pub mod request_laws;
pub mod request_map;

use vstd::prelude::*;

verus! {

/// Where the public API is.
pub const DEFAULT_BASE_URL: &'static str = "https://api.anthropic.com";

/// The version of the API that requests ask for.
pub const ANTHROPIC_VERSION: &'static str = "2023-06-01";

} // verus!
