//! Helpers shared by the generators and the server.

pub mod text;
pub mod time;
