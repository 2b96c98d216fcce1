use vstd::prelude::*;
use crate::text::{owned, str_eq};

verus! {

/// The server's settings.
#[derive(Debug, Clone)]
pub struct Config {
    /// Where cached documentation is kept.
    pub cache_dir: String,
    pub log_level: String,
    /// The port of the web dashboard.
    pub ui_port: u16,
    /// The address the HTTP server binds to.
    pub server_address: String,
}

/// The cache directory used when none is configured.
pub fn default_cache_dir() -> (r: String)
    ensures
        r@ == ".cache"@,
{
    owned(".cache")
}

/// The log level used when none is configured.
pub fn default_log_level() -> (r: String)
    ensures
        r@ == "info"@,
{
    owned("info")
}

/// The dashboard port used when none is configured.
pub fn default_ui_port() -> (r: u16)
    ensures
        r == 3000,
{
    3000
}

/// The server address used when none is configured.
pub fn default_server_address() -> (r: String)
    ensures
        r@ == "127.0.0.1:8080"@,
{
    owned("127.0.0.1:8080")
}

impl Config {
    /// The settings when nothing is configured.
    pub fn defaults() -> (r: Config)
        ensures
            r.cache_dir@ == ".cache"@,
            r.log_level@ == "info"@,
            r.ui_port == 3000,
            r.server_address@ == "127.0.0.1:8080"@,
    {
        Config {
            cache_dir: default_cache_dir(),
            log_level: default_log_level(),
            ui_port: default_ui_port(),
            server_address: default_server_address(),
        }
    }

    /// The settings in force: those read from the configuration file when it could be
    /// read and parsed, else the defaults.
    pub fn load_from(parsed: Option<Config>) -> (r: Config)
        ensures
            match parsed {
                Some(c) => r == c,
                None => r.cache_dir@ == ".cache"@ && r.log_level@ == "info"@ && r.ui_port == 3000
                    && r.server_address@ == "127.0.0.1:8080"@,
            },
    {
        match parsed {
            Some(c) => c,
            None => Config::defaults(),
        }
    }

    /// Whether debug logging is on: asked for on the command line, or the configured level.
    pub fn debug_logging(&self, asked: bool) -> (r: bool)
        ensures
            r == (asked || self.log_level@ == "debug"@),
    {
        asked || str_eq(self.log_level.as_str(), "debug")
    }

    /// The dashboard port: the one given on the command line, else the configured one.
    pub fn dashboard_port(&self, given: Option<u16>) -> (r: u16)
        ensures
            r == match given {
                Some(p) => p,
                None => self.ui_port,
            },
    {
        match given {
            Some(p) => p,
            None => self.ui_port,
        }
    }

    /// The server address: the one given on the command line, else the configured one.
    pub fn bind_address(&self, given: Option<String>) -> (r: String)
        ensures
            r@ == match given {
                Some(a) => a@,
                None => self.server_address@,
            },
    {
        match given {
            Some(a) => a,
            None => owned(self.server_address.as_str()),
        }
    }
}

} // verus!
