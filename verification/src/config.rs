//! Settings of the track service.

use vstd::prelude::*;
use vstd::string::StringExecFns;

verus! {

/// How much the service logs.
#[derive(Clone, Copy, Debug, PartialEq, Eq, Structural)]
pub enum LogLevel {
    Off,
    Error,
    Warn,
    Info,
    Debug,
    Trace,
}

/// Where the tracks are kept.
#[derive(Debug)]
pub struct TrackConfig {
    /// Root directory of the store.
    pub folder: String,
}

/// What is logged.
#[derive(Debug)]
pub struct LogConfig {
    pub level: LogLevel,
}

/// How the service is reached.
#[derive(Debug)]
pub struct ServiceConfig {
    /// Address and port that the service listens on.
    pub bind: String,
}

/// All settings.
#[derive(Debug)]
pub struct Config {
    pub track: TrackConfig,
    pub log: LogConfig,
    pub service: ServiceConfig,
}

impl Default for TrackConfig {
    /// Tracks are kept under `tracks`.
    fn default() -> (r: Self)
        ensures
            r.folder@ == "tracks"@,
    {
        Self { folder: String::from_str("tracks") }
    }
}

impl Default for LogConfig {
    /// Logging is at debug level.
    fn default() -> (r: Self)
        ensures
            r.level == LogLevel::Debug,
    {
        Self { level: LogLevel::Debug }
    }
}

impl Default for ServiceConfig {
    /// The service listens on `127.0.0.1:9100`.
    fn default() -> (r: Self)
        ensures
            r.bind@ == "127.0.0.1:9100"@,
    {
        Self { bind: String::from_str("127.0.0.1:9100") }
    }
}

impl Default for Config {
    /// Every part has its default.
    fn default() -> (r: Self)
        ensures
            r.track.folder@ == "tracks"@,
            r.log.level == LogLevel::Debug,
            r.service.bind@ == "127.0.0.1:9100"@,
    {
        Self {
            track: TrackConfig::default(),
            log: LogConfig::default(),
            service: ServiceConfig::default(),
        }
    }
}

} // verus!
