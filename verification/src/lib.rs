//! A library for building voice-over-IP services on top of UDP datagrams.
//!
//! The wire protocol frames each datagram as an 8-byte big-endian length
//! prefix, followed by the canonical encoding of a [`packet::VoipHeader`],
//! followed by the raw payload bytes.  The [`udp`] module holds the peer
//! registry, the bounded queues, and the decision logic of the client and
//! server transport loops.

use vstd::prelude::*;

pub mod packet;
pub mod queue;
pub mod udp;

verus! {

/// Maximum transmission unit: the ceiling on the total size of one frame,
/// chosen so that datagrams are not fragmented on common links.
pub const MTU_MAX_PACKET_SIZE: usize = 1300;

} // verus!
