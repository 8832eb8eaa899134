//! Verified core of the multiglass relay: configuration, identities, the
//! command-line grammar, the relay's session book and the decisions that
//! drive the daemon's start and stop.

pub mod text;
pub mod cli;
pub mod config;
pub mod paths;
pub mod identity;
pub mod daemon;
pub mod relay;
mod random;
pub mod stream;
pub mod status;
