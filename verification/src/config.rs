//! The process-wide configuration and the state handed to every route group.

use vstd::prelude::*;

verus! {

/// What the operator configures: the port to listen on and whether
/// cross-origin requests are answered.
#[derive(Clone, Copy, Debug, PartialEq, Eq, Structural)]
pub struct Config {
    pub port: u16,
    pub cors: bool,
}

impl Config {
    /// A port that a listener can be bound to: 1 to 65535.
    pub open spec fn valid(&self) -> bool {
        self.port >= 1
    }

    /// Tells whether the port can be bound at all.
    pub fn is_valid(&self) -> (ok: bool)
        ensures
            ok == self.valid(),
    {
        self.port >= 1
    }
}

/// The state shared by all route groups. It is built once and only read
/// afterwards, so every copy shows the same configuration.
#[derive(Clone, Copy, Debug, PartialEq, Eq, Structural)]
pub struct AppState {
    pub config: Config,
}

impl AppState {
    /// The state for a server that runs under `config`.
    pub fn new(config: Config) -> (state: AppState)
        ensures
            state.config == config,
    {
        AppState { config }
    }
}

} // verus!
