//! A distributed ID generation service: Snowflake, ULID and NanoID
//! generators, their configuration, and the request logic of the HTTP API.

pub mod config;
pub mod error;
pub mod generator;
pub mod server;
pub mod utils;

use vstd::prelude::*;

verus! {

/// The version of this service.
pub const VERSION: &'static str = "0.1.0";

/// The name this service reports about itself.
pub const APP_NAME: &'static str = "id-generator-service";

} // verus!
