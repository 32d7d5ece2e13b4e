//! The core of a lightweight activity tracker: it samples which application
//! has operating-system focus, deduplicates the labels per session, and
//! streams every change to a remote collector over a persistent connection,
//! authenticated by a locally stored credential and recovered via fixed
//! backoff, indefinitely.
//!
//! The library holds every decision: resolving the foreground label from a
//! process's command line ([`label`]), per-session deduplication and the
//! classification of inbound transport events ([`session`]), the retry state
//! machine around sessions ([`supervisor`]), the authenticated upgrade
//! handshake ([`handshake`]), the credential's trimming and provisioning
//! rules ([`credential`]), and the diagnostic line format ([`logline`]). The
//! host around it performs the I/O those decisions ask for: it queries the
//! OS, reads and writes the token file, drives the connection, and writes
//! the log lines.

pub mod credential;
pub mod handshake;
pub mod label;
pub mod logline;
pub mod session;
pub mod supervisor;
pub mod text;
