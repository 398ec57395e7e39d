//! Server configuration.

use vstd::prelude::*;

verus! {

/// Timeouts that govern session and run lifetimes, in milliseconds.
#[derive(Debug, Clone, Copy, PartialEq, Eq, Structural)]
pub struct ServerConfig {
    /// How long a session survives without a connection before it expires.
    pub session_expiry: u64,
    /// How long a run survives with no sessions before it is released.
    pub run_release: u64,
}

impl ServerConfig {
    /// Provisional default for [`ServerConfig::session_expiry`]: 2 minutes.
    pub const DEFAULT_SESSION_EXPIRY: u64 = 120_000;
    /// Provisional default for [`ServerConfig::run_release`]: 5 minutes.
    pub const DEFAULT_RUN_RELEASE: u64 = 300_000;
}

impl Default for ServerConfig {
    fn default() -> (config: ServerConfig)
        ensures
            config == (ServerConfig { session_expiry: 120_000, run_release: 300_000 }),
    {
        ServerConfig {
            session_expiry: ServerConfig::DEFAULT_SESSION_EXPIRY,
            run_release: ServerConfig::DEFAULT_RUN_RELEASE,
        }
    }
}

} // verus!
