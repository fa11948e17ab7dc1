//! Receiver pipeline: datagrams -> ring buffer -> deinterleave -> host
//! output ports.
//!
//! The network side checks each incoming datagram's size and the ring
//! buffer's free space before enqueueing it; a wrong-sized or
//! unplaceable datagram is dropped whole.  The real-time callback reads
//! this cycle's bytes from the buffer and splits them into the two
//! channels, substituting silence for the whole cycle on underrun.

use vstd::prelude::*;

use crate::PACKET_SIZE;
use crate::diag::{Control, DiagnosticMessage};
use crate::ring::RingBuffer;
use crate::samples::{bytes_to_samples, deinterleave, even_elements, odd_elements, samples_of_bytes};

verus! {

/// What one invocation of the receiver's audio callback produced: the
/// raw bits of the samples for each output port, the diagnostics to
/// post, and whether the host should keep invoking the callback.
pub struct ReceiverCycleResult {
    pub left: Vec<u32>,
    pub right: Vec<u32>,
    pub messages: Vec<DiagnosticMessage>,
    pub control: Control,
}

/// How the receiver's network loop disposed of one datagram.
#[derive(Clone, Copy, Debug, PartialEq, Eq, Structural)]
pub enum PacketOutcome {
    /// The datagram's bytes were appended to the ring buffer.
    Enqueued,
    /// The datagram was not exactly one packet long; dropped.
    WrongSize { received: usize },
    /// The ring buffer lacked room for a full packet; dropped.
    Overrun { expected: usize, available: usize },
}

/// One datagram arriving at the receiver's network loop.  Only a
/// datagram of exactly `PACKET_SIZE` bytes that fits into the ring
/// buffer is enqueued; anything else is dropped whole, so the buffered
/// byte stream is formed from correctly-sized datagrams alone and the
/// occupancy never exceeds the capacity.
pub fn accept_packet(rb: &mut RingBuffer, packet: &[u8]) -> (r: PacketOutcome)
    requires
        old(rb).wf(),
    ensures
        final(rb).wf(),
        final(rb).capacity() == old(rb).capacity(),
        ({
            let available = old(rb).capacity() - old(rb)@.len();
            if packet@.len() != PACKET_SIZE {
                &&& (r matches PacketOutcome::WrongSize { received } && received == packet@.len())
                &&& final(rb)@ == old(rb)@
            } else if available < PACKET_SIZE {
                &&& (r matches PacketOutcome::Overrun { expected, available: av } && expected
                    == PACKET_SIZE && av == available)
                &&& final(rb)@ == old(rb)@
            } else {
                &&& r == PacketOutcome::Enqueued
                &&& final(rb)@ == old(rb)@ + packet@
            }
        }),
{
    if packet.len() != PACKET_SIZE {
        return PacketOutcome::WrongSize { received: packet.len() };
    }
    let available = rb.writable_bytes();
    if available < PACKET_SIZE {
        return PacketOutcome::Overrun { expected: PACKET_SIZE, available };
    }
    rb.write(packet);
    PacketOutcome::Enqueued
}

/// One cycle of the receiver's real-time callback, for output ports of
/// the given lengths.
///
/// Mismatched port lengths, or more samples than the scratch buffer
/// holds, are fatal to the audio path: the one message is
/// `InvalidBufferLengths` and nothing is consumed.  When fewer bytes
/// are buffered than the cycle needs, both channels are zero-filled
/// silence, exactly one `Underrun` with the byte counts is posted, and
/// the buffer is left untouched.  Otherwise the cycle's bytes are
/// consumed and deinterleaved into the two channels.
pub fn receiver_cycle(
    rb: &mut RingBuffer,
    left_len: usize,
    right_len: usize,
    scratch_capacity: usize,
) -> (r: ReceiverCycleResult)
    requires
        old(rb).wf(),
        left_len + right_len <= usize::MAX,
        4 * scratch_capacity <= usize::MAX,
    ensures
        final(rb).wf(),
        final(rb).capacity() == old(rb).capacity(),
        ({
            let total = left_len + right_len;
            let required = 4 * total;
            let available = old(rb)@.len();
            if total > scratch_capacity || left_len != right_len {
                &&& r.control == Control::Quit
                &&& r.messages@ == seq![DiagnosticMessage::InvalidBufferLengths]
                &&& final(rb)@ == old(rb)@
                &&& r.left@.len() == 0
                &&& r.right@.len() == 0
            } else if available < required {
                &&& r.control == Control::Continue
                &&& r.messages@.len() == 1
                &&& (r.messages@[0] matches DiagnosticMessage::Underrun { expected, available: av }
                    && expected == required && av == available)
                &&& final(rb)@ == old(rb)@
                &&& r.left@ == Seq::new(left_len as nat, |i: int| 0u32)
                &&& r.right@ == Seq::new(right_len as nat, |i: int| 0u32)
            } else {
                &&& r.control == Control::Continue
                &&& r.messages@.len() == 0
                &&& final(rb)@ == old(rb)@.skip(required)
                &&& r.left@ == even_elements(samples_of_bytes(old(rb)@.take(required)))
                &&& r.right@ == odd_elements(samples_of_bytes(old(rb)@.take(required)))
                &&& r.left@.len() == left_len
                &&& r.right@.len() == right_len
            }
        }),
{
    let total = left_len + right_len;
    if total > scratch_capacity || left_len != right_len {
        let mut messages: Vec<DiagnosticMessage> = Vec::new();
        messages.push(DiagnosticMessage::InvalidBufferLengths);
        proof {
            assert(messages@ =~= seq![DiagnosticMessage::InvalidBufferLengths]);
        }
        return ReceiverCycleResult {
            left: Vec::new(),
            right: Vec::new(),
            messages,
            control: Control::Quit,
        };
    }
    let required = 4 * total;
    let available = rb.readable_bytes();
    if available < required {
        let left = zero_samples(left_len);
        let right = zero_samples(right_len);
        let mut messages: Vec<DiagnosticMessage> = Vec::new();
        messages.push(DiagnosticMessage::Underrun { expected: required, available });
        return ReceiverCycleResult { left, right, messages, control: Control::Continue };
    }
    let data = rb.read_exact(required);
    let samples = bytes_to_samples(data.as_slice());
    let (left, right) = deinterleave(samples.as_slice()).unwrap();
    ReceiverCycleResult { left, right, messages: Vec::new(), control: Control::Continue }
}

/// A cycle's worth of silence: zero-valued sample bits for one channel.
fn zero_samples(n: usize) -> (r: Vec<u32>)
    ensures
        r@ == Seq::new(n as nat, |i: int| 0u32),
{
    let mut out: Vec<u32> = Vec::new();
    let mut i: usize = 0;
    while i < n
        invariant
            i <= n,
            out@.len() == i,
            forall|k: int| 0 <= k < i ==> out@[k] == 0u32,
        decreases n - i,
    {
        out.push(0u32);
        i = i + 1;
    }
    proof {
        assert(out@ =~= Seq::new(n as nat, |i: int| 0u32));
    }
    out
}

} // verus!
