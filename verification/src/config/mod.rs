//! The service's configuration.

pub mod settings;

pub use settings::{NanoIDConfig, ServerConfig, Settings, SnowflakeConfig, ULIDConfig};
