//! Core logic of a poll-and-relay service: it watches social-media accounts
//! for new image posts and relays each one as a webhook notification.
//!
//! This crate holds the verified part: cursor tracking, eligibility
//! filtering, chronological chunking, tag stripping, storage-key derivation
//! and the scheduling state machine. All network and file I/O lives outside,
//! in a thin driver that hands plain values in and out.

pub mod chunk;
pub mod config;
pub mod embed;
pub mod ids;
pub mod key;
pub mod link;
pub mod posts;
pub mod sched;
pub mod store;
pub mod text;
