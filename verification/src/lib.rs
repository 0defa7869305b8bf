//! Core of a client-side telemetry library: typed metrics are recorded
//! through an ordered dispatch queue into a lifetime-aware key/value store,
//! assembled into ping documents, and handed to an upload manager that
//! retries against a pluggable transport.
//!
//! Everything that decides or computes is verified; the host is expected to
//! perform the actual I/O (persistence, networking, thread spawning) around
//! this crate and feed the results back in as plain values.  Queued upload
//! bodies are the plain serialized ping documents: a host that compresses
//! for transport does so inside its uploader capability, leaving the
//! document itself untouched.

pub mod lifetime;
pub mod metric;
pub mod common;
pub mod storage;
pub mod text;
pub mod json;
pub mod error;
pub mod upload;
pub mod ping;
pub mod dispatcher;
pub mod glean;
pub mod object;
