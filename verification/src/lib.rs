//! A sandboxed plugin execution host.
//!
//! The host loads untrusted plugin binaries, validates their declared
//! interface against the capabilities it is willing to provide, runs their
//! exported functions inside an isolated execution context under a fuel
//! budget, and records every invocation as a job with a typed outcome.
//! A misbehaving plugin can fault its own invocation but never the host.

mod config;
mod hostenv;
pub mod caps;
pub mod discovery;
pub mod state;
pub mod context;
pub mod invoke;
pub mod module;
pub mod iface;

pub use config::AppStateConfig;
