//! Host-side broker for remote desktop sessions: length-prefixed frame codec,
//! persistent device registry, connection registry with bounded outbound
//! queues, authorisation state machine, mirror coordination and a smoothed
//! pointer-state manager.
use vstd::prelude::*;

pub mod codec;
pub mod connreg;
pub mod fmt;
pub mod handler;
pub mod keymap;
pub mod messages;
pub mod outside;
pub mod persist;
pub mod pointer;
pub mod registry;
pub mod session;
pub mod types;

verus! {

/// Hard cap on the length of an inbound frame payload: 10 MiB.
pub const MAX_FRAME_LEN: u32 = 10485760;

/// Capacity of each per-connection outbound queue.
pub const OUTBOUND_QUEUE_CAPACITY: usize = 64;

} // verus!
