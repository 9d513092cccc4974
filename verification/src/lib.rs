//! Supervisor core for locally-run game-server processes.
//!
//! The crate owns the mapping from logical instance identifiers to live
//! OS processes, classifies console output into structured lifecycle and
//! authentication events, and drives the graceful-then-forceful stop
//! sequence.  All process spawning, signalling and stream I/O is left to
//! the embedding program; this crate makes every decision on plain values
//! and proves its contracts with Verus.

pub mod classifier;
pub mod clock;
pub mod errors;
pub mod java;
pub mod launch;
pub mod lifecycle;
pub mod logs;
pub mod network;
pub mod platform;
pub mod registry;
pub mod text;
pub mod version;
