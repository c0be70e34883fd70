//! The settings of the server and of each generator, their defaults, and
//! the check of their ranges.

use vstd::prelude::*;

use crate::error::ConfigError;
use crate::generator::nanoid::DEFAULT_ALPHABET;

verus! {

/// Where the server listens.
#[derive(Debug)]
pub struct ServerConfig {
    /// The address to listen on.
    pub host: String,
    /// The port to listen on.
    pub port: u16,
}

impl Default for ServerConfig {
    /// Listen on 0.0.0.0:3000.
    fn default() -> (r: Self)
        ensures
            r.host@ == "0.0.0.0"@,
            r.port == 3000,
    {
        ServerConfig { host: "0.0.0.0".to_owned(), port: 3000 }
    }
}

/// The Snowflake generator's settings.
#[derive(Debug)]
pub struct SnowflakeConfig {
    /// The machine ID.
    pub worker_id: u64,
    /// The data-center ID (0-31).
    pub datacenter_id: u64,
}

impl Default for SnowflakeConfig {
    /// Machine 1 in data center 1.
    fn default() -> (r: Self)
        ensures
            r.worker_id == 1,
            r.datacenter_id == 1,
    {
        SnowflakeConfig { worker_id: 1, datacenter_id: 1 }
    }
}

/// The NanoID generator's settings.
#[derive(Debug)]
pub struct NanoIDConfig {
    /// Characters per ID.
    pub length: usize,
    /// The characters IDs are drawn from (URL-safe by default).
    pub alphabet: String,
}

impl Default for NanoIDConfig {
    /// 21 characters from the URL-safe alphabet.
    fn default() -> (r: Self)
        ensures
            r.length == 21,
            r.alphabet@ == DEFAULT_ALPHABET@,
    {
        NanoIDConfig { length: 21, alphabet: DEFAULT_ALPHABET.to_owned() }
    }
}

/// The ULID generator's settings (none so far).
#[derive(Debug)]
pub struct ULIDConfig {
    /// Reserved for settings to come.
    pub _placeholder: bool,
}

impl Default for ULIDConfig {
    fn default() -> (r: Self)
        ensures
            !r._placeholder,
    {
        ULIDConfig { _placeholder: false }
    }
}

/// All settings of the service.
#[derive(Debug)]
pub struct Settings {
    pub server: ServerConfig,
    pub snowflake: SnowflakeConfig,
    pub ulid: ULIDConfig,
    pub nanoid: NanoIDConfig,
}

/// The settings of each part at its default.
pub open spec fn spec_is_default(s: Settings) -> bool {
    &&& s.server.host@ == "0.0.0.0"@
    &&& s.server.port == 3000
    &&& s.snowflake.worker_id == 1
    &&& s.snowflake.datacenter_id == 1
    &&& !s.ulid._placeholder
    &&& s.nanoid.length == 21
    &&& s.nanoid.alphabet@ == DEFAULT_ALPHABET@
}

impl Default for Settings {
    /// Every part at its default.
    fn default() -> (r: Self)
        ensures
            spec_is_default(r),
    {
        Settings {
            server: ServerConfig::default(),
            snowflake: SnowflakeConfig::default(),
            ulid: ULIDConfig::default(),
            nanoid: NanoIDConfig::default(),
        }
    }
}

impl Settings {
    /// The first range check that `self` fails, as its message, or `None`
    /// when every value is in range: the machine ID at most 1023, the
    /// data-center ID at most 31, a positive NanoID length, and a non-empty
    /// NanoID alphabet.
    pub open spec fn spec_validation_error(&self) -> Option<Seq<char>> {
        if self.snowflake.worker_id > 1023 {
            Some("worker_id 必须在 0-1023 范围内"@)
        } else if self.snowflake.datacenter_id > 31 {
            Some("datacenter_id 必须在 0-31 范围内"@)
        } else if self.nanoid.length == 0 {
            Some("nanoid.length 必须大于 0"@)
        } else if self.nanoid.alphabet@.len() == 0 {
            Some("nanoid.alphabet 不能为空"@)
        } else {
            None
        }
    }

    /// Checks that the settings are in range; the error names the first
    /// value that is not.
    pub fn validate(&self) -> (r: Result<(), String>)
        ensures
            match self.spec_validation_error() {
                None => r is Ok,
                Some(m) => r matches Err(e) && e@ == m,
            },
    {
        if self.snowflake.worker_id > 1023 {
            return Err("worker_id 必须在 0-1023 范围内".to_owned());
        }
        if self.snowflake.datacenter_id > 31 {
            return Err("datacenter_id 必须在 0-31 范围内".to_owned());
        }
        if self.nanoid.length == 0 {
            return Err("nanoid.length 必须大于 0".to_owned());
        }
        if self.nanoid.alphabet.as_str().is_empty() {
            return Err("nanoid.alphabet 不能为空".to_owned());
        }
        Ok(())
    }

    /// The settings to run with, given what loading them gave: the loaded
    /// settings, or the defaults when loading failed.
    pub fn from_loaded(loaded: Result<Settings, ConfigError>) -> (s: Settings)
        ensures
            match loaded {
                Ok(x) => s == x,
                Err(_) => spec_is_default(s),
            },
    {
        match loaded {
            Ok(x) => x,
            Err(_) => Settings::default(),
        }
    }
}

/// The default settings pass the range checks.
pub proof fn lemma_default_settings_valid(s: Settings)
    requires
        spec_is_default(s),
    ensures
        s.spec_validation_error() is None,
{
    reveal_strlit("ABCDEFGHIJKLMNOPQRSTUVWXYZabcdefghijklmnopqrstuvwxyz0123456789-_");
}

} // verus!
