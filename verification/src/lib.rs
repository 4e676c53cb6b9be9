//! Verified core of a user-space TCP port-forwarding proxy.
//!
//! Real TCP clients connect to a host-visible listener; each accepted
//! connection is bridged to a fresh TCP session inside an isolated virtual
//! network that is reachable only through an emulator's datagram-based
//! network backend.  This crate holds the verified kernel of that proxy:
//! ephemeral port allocation, the link-layer frame codec, the per-connection
//! bridge state machine, and the bookkeeping of the event loop.

use vstd::prelude::*;

pub mod bridge;
pub mod engine;
pub mod frame;
pub mod port_alloc;
pub mod vsock;
pub mod wait;

verus! {

/// Maximum transmission unit declared to the protocol stack: the largest
/// Ethernet frame payload the transport will carry in one datagram.
pub const MTU: usize = 1500;

} // verus!
