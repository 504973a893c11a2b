//! Server configuration: its defaults, and settings applied over them.
use vstd::prelude::*;
use crate::error::TurboError;
use crate::numtext::{parse_u64, parse_u64_spec};
use crate::cache::utf8;
use crate::text::concat2;

verus! {

/// The whole configuration.
pub struct TurboConfig {
    pub server: ServerConfig,
    pub sandbox: SandboxConfig,
    pub redis: RedisConfig,
    pub database: DatabaseConfig,
    pub paths: PathsConfig,
}

pub struct DatabaseConfig {
    pub url: String,
}

pub struct ServerConfig {
    pub host: String,
    pub port: u16,
    pub log_level: String,
}

pub struct SandboxConfig {
    pub max_concurrent_jobs: usize,
    pub memory_limit_mb: u64,
}

pub struct RedisConfig {
    pub url: String,
}

pub struct PathsConfig {
    pub turbo_home: String,
    pub packages_path: String,
}

/// Whether `c` holds the defaults.
pub open spec fn is_default_config(c: TurboConfig) -> bool {
    &&& c.server.host@ == "0.0.0.0"@
    &&& c.server.port == 4000
    &&& c.server.log_level@ == "INFO"@
    &&& c.sandbox.max_concurrent_jobs == 64
    &&& c.sandbox.memory_limit_mb == 512
    &&& c.redis.url@ == "redis://127.0.0.1:6379"@
    &&& c.database.url@ == "sqlite://turbo.db"@
    &&& c.paths.turbo_home@ == ".turbo"@
    &&& c.paths.packages_path@ == "packages"@
}

/// An option that a setting can change.
#[derive(Clone, Copy, Debug, PartialEq, Eq, Structural)]
pub enum Setting {
    Host,
    Port,
    LogLevel,
    MaxConcurrentJobs,
    MemoryLimitMb,
    RedisUrl,
    DatabaseUrl,
    TurboHome,
    PackagesPath,
}

/// The option a key names, such as `server.port`.
pub open spec fn setting_of(key: Seq<char>) -> Option<Setting> {
    if key == "server.host"@ {
        Some(Setting::Host)
    } else if key == "server.port"@ {
        Some(Setting::Port)
    } else if key == "server.log_level"@ {
        Some(Setting::LogLevel)
    } else if key == "sandbox.max_concurrent_jobs"@ {
        Some(Setting::MaxConcurrentJobs)
    } else if key == "sandbox.memory_limit_mb"@ {
        Some(Setting::MemoryLimitMb)
    } else if key == "redis.url"@ {
        Some(Setting::RedisUrl)
    } else if key == "database.url"@ {
        Some(Setting::DatabaseUrl)
    } else if key == "paths.turbo_home"@ {
        Some(Setting::TurboHome)
    } else if key == "paths.packages_path"@ {
        Some(Setting::PackagesPath)
    } else {
        None
    }
}

/// The number a setting's text holds, as `u64::from_str` reads it.
pub open spec fn number_of(value: Seq<char>) -> Option<u64> {
    parse_u64_spec(utf8(value), 0, utf8(value).len() as int)
}

/// Whether `new` is `old` with only the option `key` names set from `value`;
/// an unknown key changes nothing.
pub open spec fn applied(old: TurboConfig, new: TurboConfig, key: Seq<char>, value: Seq<char>) -> bool {
    let s = setting_of(key);
    let n = number_of(value);
    &&& new.server.host@ == (if s == Some(Setting::Host) { value } else { old.server.host@ })
    &&& new.server.port == (if s == Some(Setting::Port) { n->0 as u16 } else { old.server.port })
    &&& new.server.log_level@ == (if s == Some(Setting::LogLevel) {
        value
    } else {
        old.server.log_level@
    })
    &&& new.sandbox.max_concurrent_jobs == (if s == Some(Setting::MaxConcurrentJobs) {
        n->0 as usize
    } else {
        old.sandbox.max_concurrent_jobs
    })
    &&& new.sandbox.memory_limit_mb == (if s == Some(Setting::MemoryLimitMb) {
        n->0
    } else {
        old.sandbox.memory_limit_mb
    })
    &&& new.redis.url@ == (if s == Some(Setting::RedisUrl) { value } else { old.redis.url@ })
    &&& new.database.url@ == (if s == Some(Setting::DatabaseUrl) {
        value
    } else {
        old.database.url@
    })
    &&& new.paths.turbo_home@ == (if s == Some(Setting::TurboHome) {
        value
    } else {
        old.paths.turbo_home@
    })
    &&& new.paths.packages_path@ == (if s == Some(Setting::PackagesPath) {
        value
    } else {
        old.paths.packages_path@
    })
}

/// Whether `value` is no number that fits the numeric option `key` names.
pub open spec fn bad_number(key: Seq<char>, value: Seq<char>) -> bool {
    let n = number_of(value);
    match setting_of(key) {
        Some(Setting::Port) => n is None || n->0 > u16::MAX,
        Some(Setting::MaxConcurrentJobs) => n is None || n->0 > usize::MAX,
        Some(Setting::MemoryLimitMb) => n is None,
        _ => false,
    }
}

fn number(value: &str) -> (r: Option<u64>)
    ensures
        r == number_of(value@),
{
    let b = value.as_bytes();
    parse_u64(b, 0, b.len())
}

fn is_key(key: &str, name: &str) -> (r: bool)
    ensures
        r == (key@ == name@),
{
    String::from_str(key) == String::from_str(name)
}

impl TurboConfig {
    /// The default configuration.
    pub fn new() -> (r: TurboConfig)
        ensures
            is_default_config(r),
    {
        TurboConfig {
            server: ServerConfig {
                host: String::from_str("0.0.0.0"),
                port: 4000,
                log_level: String::from_str("INFO"),
            },
            sandbox: SandboxConfig { max_concurrent_jobs: 64, memory_limit_mb: 512 },
            redis: RedisConfig { url: String::from_str("redis://127.0.0.1:6379") },
            database: DatabaseConfig { url: String::from_str("sqlite://turbo.db") },
            paths: PathsConfig {
                turbo_home: String::from_str(".turbo"),
                packages_path: String::from_str("packages"),
            },
        }
    }

    /// Sets the option `key` (such as `server.port`) to the text `value`.
    /// A numeric option whose value is no number that fits is an error and
    /// changes nothing.
    pub fn apply_setting(&mut self, key: &str, value: &str) -> (r: Result<(), TurboError>)
        ensures
            r is Err <==> bad_number(key@, value@),
            r is Ok ==> applied(*old(self), *final(self), key@, value@),
            r is Err ==> *final(self) == *old(self),
            r is Err ==> r->Err_0 is Config,
    {
        if is_key(key, "server.host") {
            self.server.host = String::from_str(value);
        } else if is_key(key, "server.port") {
            match number(value) {
                Some(n) => {
                    if n > 65535 {
                        return Err(TurboError::Config(concat2("port out of range: ", value)));
                    }
                    self.server.port = n as u16;
                },
                None => return Err(TurboError::Config(concat2("invalid port: ", value))),
            }
        } else if is_key(key, "server.log_level") {
            self.server.log_level = String::from_str(value);
        } else if is_key(key, "sandbox.max_concurrent_jobs") {
            match number(value) {
                Some(n) => {
                    if n > usize::MAX as u64 {
                        return Err(TurboError::Config(concat2("job count out of range: ", value)));
                    }
                    self.sandbox.max_concurrent_jobs = n as usize;
                },
                None => return Err(TurboError::Config(concat2("invalid job count: ", value))),
            }
        } else if is_key(key, "sandbox.memory_limit_mb") {
            match number(value) {
                Some(n) => self.sandbox.memory_limit_mb = n,
                None => return Err(TurboError::Config(concat2("invalid memory limit: ", value))),
            }
        } else if is_key(key, "redis.url") {
            self.redis.url = String::from_str(value);
        } else if is_key(key, "database.url") {
            self.database.url = String::from_str(value);
        } else if is_key(key, "paths.turbo_home") {
            self.paths.turbo_home = String::from_str(value);
        } else if is_key(key, "paths.packages_path") {
            self.paths.packages_path = String::from_str(value);
        }
        Ok(())
    }
}

} // verus!
