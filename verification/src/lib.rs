//! Verified core of the supervisor dashboard relay: configuration checks,
//! target registration, remote identities, command validation, session
//! gating and stream fan-out.

pub mod audit;
pub mod auth;
pub mod cli;
pub mod clock;
pub mod command;
pub mod config;
pub mod diagnostics;
pub mod error;
pub mod ipc_client;
pub mod opaque;
pub mod registration;
pub mod registry;
pub mod relay;
pub mod session;
pub mod text;
