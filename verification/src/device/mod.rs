//! The device core: wire-level value types, safe diagnostics, the lifecycle state machine, the
//! protocol dispatcher's decisions and the production loop's scheduling.

/// Value types of the wire protocol that the device logic reads and produces.
pub mod wire;
/// Heartbeat and safe diagnostics.
pub mod health;
/// The device lifecycle state machine.
pub mod state;
/// The protocol dispatcher's decisions.
pub mod dispatch;
/// Inbound byte accumulation and packet splitting.
pub mod framing;
/// What the desktop asked the panel to present.
pub mod presentation;
/// The production loop's decisions.
pub mod runtime;
/// Observation of the simulation modes.
pub mod observe;
/// Moving bytes between the link and the dispatcher.
pub mod link;
