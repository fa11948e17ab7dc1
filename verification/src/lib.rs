//! Verified core of a stereo-audio-over-UDP bridge.
//!
//! A real-time audio callback and a blocking network thread exchange
//! interleaved 32-bit PCM samples through a fixed-capacity byte ring
//! buffer, with drop-on-overrun and silence-on-underrun policies and a
//! one-way diagnostic channel.  This crate holds the verified pieces:
//! the ring buffer, interleaving and byte packing, and the per-cycle
//! and per-packet decision logic of both pipelines.

use vstd::prelude::*;

pub mod diag;
pub mod receiver;
pub mod ring;
pub mod samples;
pub mod sender;

verus! {

/// Byte capacity of the ring buffer shared by the two threads.
pub const RING_BUFFER_SIZE: usize = 16384;

/// Every datagram carries exactly this many bytes of interleaved samples.
pub const PACKET_SIZE: usize = 480;

} // verus!
