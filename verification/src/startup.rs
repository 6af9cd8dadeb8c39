//! How the options of the program decide what it runs as.

use vstd::prelude::*;

verus! {

/// How much the program logs.
#[derive(Debug, Clone, Copy, PartialEq, Eq, Structural)]
pub enum LogLevel {
    Off,
    Error,
    Warn,
    Info,
    Debug,
    Trace,
}

/// What the program runs as.
#[derive(Debug, Clone, Copy, PartialEq, Eq, Structural)]
pub enum Mode {
    /// A server, which answers other peers.
    Server,
    /// A client, which has a command line besides.
    Client,
    /// Neither.
    Nothing,
}

/// The level at which to log: what was asked for, but a server that was not asked
/// for any logs what it does.
pub fn log_level(server: bool, asked: LogLevel) -> (level: LogLevel)
    ensures
        level == if server && asked == LogLevel::Off {
            LogLevel::Info
        } else {
            asked
        },
{
    if server && asked == LogLevel::Off {
        LogLevel::Info
    } else {
        asked
    }
}

/// What to run as: a server if that was asked for, whatever else was.
pub fn mode(server: bool, client: bool) -> (mode: Mode)
    ensures
        mode == if server {
            Mode::Server
        } else if client {
            Mode::Client
        } else {
            Mode::Nothing
        },
{
    if server {
        Mode::Server
    } else if client {
        Mode::Client
    } else {
        Mode::Nothing
    }
}

} // verus!
