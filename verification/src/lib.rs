//! A server-side session manager. An opaque 32-character identifier,
//! carried in a tamper-evident (optionally encrypted) cookie, is bound to a
//! mutable, expiring bag of key/value state held in server memory and
//! reconciled against every request/response cycle.
//!
//! `kvmap` holds the verified string map both the session state and the
//! store are built on; `digits` and `blob` make up the codec that turns a
//! state into the blob the store keeps, proved to round-trip; `session` is
//! the per-request state machine whose `Purged` status is absorbing;
//! `server_session_state` is the store with its reaper sweep;
//! `server_session_inner` issues and verifies cookie identifiers and
//! renders `Set-Cookie` values; `server_session` ties them together once
//! per request. Every call into an outside crate goes through `outside`.
pub mod blob;
pub mod digits;
pub mod kvmap;
pub mod outside;
pub mod server_session;
pub mod server_session_inner;
pub mod server_session_state;
pub mod session;
