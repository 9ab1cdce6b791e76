//! Verified core of a line-oriented hashing daemon.
//!
//! Clients send newline-delimited preimages; the daemon answers each with a
//! hex-encoded digest from one of three backends: a demo composition of two
//! standard hashes, an external executable invoked per request, or a
//! memory-hard scheme whose expensive per-selector resource is built once and
//! cached for the life of the process.
//!
//! This crate holds the logic worth proving: request parsing, backend
//! dispatch decisions, digest composition, startup configuration, and the
//! build-once seed cache. Socket I/O, threads and subprocess plumbing live in
//! the thin unverified layer around it.

pub mod bytes;
pub mod cache;
pub mod config;
pub mod demo;
pub mod hexcode;
pub mod protocol;
pub mod session;
