//! User and group identity utilities, centred on a verified
//! privilege-elevation protocol.
//!
//! The heart of the crate is the elevation daemon: a long-lived,
//! root-owned service that an unprivileged client asks to raise the
//! credentials of its own, already-running process.  The daemon keeps
//! one [`daemon::HandshakeState`] per open handle, consults a policy
//! engine on every password submission, and hands out a one-shot
//! elevation order once the caller has authenticated.
//!
//! The credential store (user and group records, password
//! verification) is an external collaborator.  This crate models it as
//! plain data ([`store::CredentialStore`]); the process that embeds the
//! library materialises the records from the system's account database
//! and performs the actual I/O, process spawning and descriptor
//! passing.

pub mod bytes;
pub mod client;
pub mod daemon;
pub mod laws;
pub mod policy;
pub mod session;
pub mod store;
pub mod utf8;

pub use bytes::bytes_eq;
