//! The request logic of the HTTP API.

pub mod http;
pub mod state;

pub use state::AppState;
