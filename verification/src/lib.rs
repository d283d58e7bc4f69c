//! Verified core of a ServerQuery-style voice-server automation client.
//!
//! The crate covers the protocol codec (escaping, status decoding, typed row
//! parsing, command building, response framing) and the decision logic of the
//! automation engine (per-client channel provisioning, idempotency-cache
//! handling, the mute-porter policy, and the event-loop state machine).
//! All I/O — the socket, timers, and the event channel — lives outside this
//! crate; the engine is driven by handing it events and carrying out the
//! actions it returns.

pub mod escape;
pub mod numfmt;
pub mod strutil;
pub mod status;
pub mod rows;
pub mod commands;
pub mod engine;
pub mod handle;
