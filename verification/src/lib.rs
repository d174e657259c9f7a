//! Core engine of a peer-to-peer direct-messaging application built on a
//! content-addressed, per-agent append-only log.
//!
//! Each participant's device holds only the messages it authored or received;
//! there is no server-side index. This crate contains the parts of the system
//! that make nontrivial decisions and proves them correct:
//!
//! * the conversation assembly engine, which turns a full scan of the local
//!   log into per-conversant message buckets with cursor-based pagination,
//!   payload filtering, reply attachment and receipt attachment;
//! * the receipt reconciliation engine, which merges incoming delivery and
//!   read receipts against the local receipt log without ever downgrading a
//!   message that was already read;
//! * the delivery coordinator, which builds outbound messages, synthesizes
//!   delivery and read receipts, resolves reply context, and decides what to
//!   commit and what to report for every outcome of a remote call.
//!
//! The log storage, the remote-invocation transport, the signal emitter and
//! the system clock are external collaborators. Functions here take what
//! those collaborators produce (a scanned log, a clock reading, the outcome
//! of a remote call) as plain arguments and return the values to commit,
//! send or emit; the thin host adapter that performs the actual I/O lives
//! outside this crate.

pub mod types;
pub mod hash;
pub mod tables;
pub mod assembly;
pub mod adjacent;
pub mod signals;
pub mod reconcile;
pub mod coordinator;
pub mod policy;
pub mod utils;
