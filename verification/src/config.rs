//! The part of the gateway's configuration that a connection reads.

use vstd::prelude::*;

verus! {

/// What is shown of the server while no status of its own is known.
#[derive(Debug)]
pub struct PublicConfig {
    /// The version name to announce.
    pub version: String,
    /// The protocol number to announce.
    pub protocol: u32,
}

/// The descriptions shown in place of the server's own.
#[derive(Debug)]
pub struct MotdConfig {
    /// Shown while the server is not running.
    pub sleeping: String,
    /// Shown while the server is coming up.
    pub starting: String,
    /// Shown while the server is going down.
    pub stopping: String,
    /// Whether the server's own description is preferred once it is known.
    pub from_server: bool,
}

/// Turning every login away.
#[derive(Debug)]
pub struct LockoutConfig {
    pub enabled: bool,
    /// The reason given to a client that is turned away.
    pub message: String,
}

#[derive(Debug)]
pub struct Config {
    pub public: PublicConfig,
    pub motd: MotdConfig,
    pub lockout: LockoutConfig,
}

} // verus!
