//! In-vehicle-infotainment display controller core.
//!
//! The crate mirrors the surfaces and layers of a Wayland compositor,
//! diffs property snapshots into typed notifications, manages per-client
//! subscriptions with bounded outboxes, and serves a length-prefixed
//! JSON-RPC protocol that validates inputs and batches property writes
//! behind an explicit commit.

pub mod assoc;
pub mod bridge;
pub mod client;
pub mod decimal;
pub mod format;
pub mod framing;
pub mod geometry;
pub mod handler;
pub mod json;
pub mod notifications;
pub mod orientation;
pub mod protocol;
pub mod state;
pub mod subscriptions;
pub mod transport;
pub mod validation;

