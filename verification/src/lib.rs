//! Core of a real-time multi-user chat relay.
//!
//! The crate tracks connected participants in a registry that keeps display
//! names unique, validates and applies renames, and fans events out to every
//! subscribed session through a bounded, lossy broadcast bus.  Each operation
//! carries a contract describing exactly how it changes the registry and what
//! it publishes.
//!
//! - [`registry`]: the identity to display-name mapping with its uniqueness
//!   invariant.
//! - [`bus`]: the bounded, lossy fan-out primitive with per-subscriber FIFO
//!   delivery.
//! - [`names`]: the display-name validation rules.
//! - [`json`]: the roster payload encoding.
//! - [`chat`]: the shared core combining registry and bus — connect, chat,
//!   rename, disconnect.
//! - [`session`]: the per-connection lifecycle.
//! - [`models`]: event envelopes and the request/response shapes.

pub mod bus;
pub mod chat;
pub mod json;
pub mod models;
pub mod names;
pub mod registry;
pub mod session;
pub mod text;
