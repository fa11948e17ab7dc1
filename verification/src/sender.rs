//! Sender pipeline: host input ports -> interleave -> ring buffer ->
//! fixed-size packet framing.
//!
//! The real-time callback validates the cycle's buffers, interleaves
//! the two channels and writes their wire bytes into the ring buffer,
//! dropping the whole cycle on overrun.  The network side drains the
//! buffer one full packet at a time and leaves any partial packet
//! buffered; actually sending the datagrams is the caller's business.

use vstd::prelude::*;

use crate::PACKET_SIZE;
use crate::diag::{Control, DiagnosticMessage};
use crate::ring::RingBuffer;
use crate::samples::{bytes_of_samples, interleave, interleaved, samples_to_bytes};

verus! {

/// What one invocation of the sender's audio callback produced: the
/// diagnostics to post, in order, and whether the host should keep
/// invoking the callback.
pub struct SenderCycleResult {
    pub messages: Vec<DiagnosticMessage>,
    pub control: Control,
}

/// One cycle of the sender's real-time callback, on the raw bits of
/// this cycle's left/right samples.
///
/// Mismatched channel lengths, or more samples than the scratch buffer
/// holds, are fatal to the audio path: nothing is written and the one
/// message is `InvalidBufferLengths`.  When the ring buffer lacks room
/// for the cycle's bytes, the cycle is dropped entirely and exactly one
/// `Overrun` with the byte counts is posted.  Otherwise the interleaved
/// wire bytes are appended to the buffer.  Every non-fatal outcome also
/// posts `Ready`, which paces the network loop.
pub fn sender_cycle(
    rb: &mut RingBuffer,
    left: &[u32],
    right: &[u32],
    scratch_capacity: usize,
) -> (r: SenderCycleResult)
    requires
        old(rb).wf(),
        left@.len() + right@.len() <= usize::MAX,
        4 * scratch_capacity <= usize::MAX,
    ensures
        final(rb).wf(),
        final(rb).capacity() == old(rb).capacity(),
        ({
            let total = left@.len() + right@.len();
            let required = 4 * total;
            let available = old(rb).capacity() - old(rb)@.len();
            if total > scratch_capacity || left@.len() != right@.len() {
                &&& r.control == Control::Quit
                &&& r.messages@ == seq![DiagnosticMessage::InvalidBufferLengths]
                &&& final(rb)@ == old(rb)@
            } else if available < required {
                &&& r.control == Control::Continue
                &&& r.messages@.len() == 2
                &&& (r.messages@[0] matches DiagnosticMessage::Overrun { expected, available: av }
                    && expected == required && av == available)
                &&& r.messages@[1] == DiagnosticMessage::Ready
                &&& final(rb)@ == old(rb)@
            } else {
                &&& r.control == Control::Continue
                &&& r.messages@ == seq![DiagnosticMessage::Ready]
                &&& final(rb)@ == old(rb)@ + bytes_of_samples(interleaved(left@, right@))
            }
        }),
{
    let total = left.len() + right.len();
    if total > scratch_capacity || left.len() != right.len() {
        let mut messages: Vec<DiagnosticMessage> = Vec::new();
        messages.push(DiagnosticMessage::InvalidBufferLengths);
        proof {
            assert(messages@ =~= seq![DiagnosticMessage::InvalidBufferLengths]);
        }
        return SenderCycleResult { messages, control: Control::Quit };
    }
    let required = 4 * total;
    let available = rb.writable_bytes();
    if available < required {
        let mut messages: Vec<DiagnosticMessage> = Vec::new();
        messages.push(DiagnosticMessage::Overrun { expected: required, available });
        messages.push(DiagnosticMessage::Ready);
        return SenderCycleResult { messages, control: Control::Continue };
    }
    let stream = interleave(left, right).unwrap();
    let bytes = samples_to_bytes(stream.as_slice());
    rb.write(bytes.as_slice());
    let mut messages: Vec<DiagnosticMessage> = Vec::new();
    messages.push(DiagnosticMessage::Ready);
    proof {
        assert(messages@ =~= seq![DiagnosticMessage::Ready]);
    }
    SenderCycleResult { messages, control: Control::Continue }
}

/// Reads every full packet out of the ring buffer, in order; bytes
/// short of a full packet stay buffered for the next round.
pub fn drain_packets(rb: &mut RingBuffer) -> (packets: Vec<Vec<u8>>)
    requires
        old(rb).wf(),
    ensures
        final(rb).wf(),
        final(rb).capacity() == old(rb).capacity(),
        packets@.len() == (old(rb)@.len() as int) / (PACKET_SIZE as int),
        forall|i: int|
            0 <= i < packets@.len() ==> (#[trigger] packets@[i])@ == old(rb)@.subrange(
                (PACKET_SIZE as int) * i,
                (PACKET_SIZE as int) * (i + 1),
            ),
        final(rb)@ == old(rb)@.skip(
            (PACKET_SIZE as int) * ((old(rb)@.len() as int) / (PACKET_SIZE as int)),
        ),
        final(rb)@.len() < PACKET_SIZE,
{
    let mut packets: Vec<Vec<u8>> = Vec::new();
    while rb.readable_bytes() >= PACKET_SIZE
        invariant
            rb.wf(),
            rb.capacity() == old(rb).capacity(),
            (PACKET_SIZE as int) * packets@.len() <= old(rb)@.len(),
            rb@ == old(rb)@.skip((PACKET_SIZE as int) * packets@.len()),
            forall|i: int|
                0 <= i < packets@.len() ==> (#[trigger] packets@[i])@ == old(rb)@.subrange(
                    (PACKET_SIZE as int) * i,
                    (PACKET_SIZE as int) * (i + 1),
                ),
        decreases rb@.len(),
    {
        let ghost k = packets@.len() as int;
        let data = rb.read_exact(PACKET_SIZE);
        packets.push(data);
        proof {
            assert(data@ =~= old(rb)@.subrange(
                (PACKET_SIZE as int) * k,
                (PACKET_SIZE as int) * (k + 1),
            ));
            assert(rb@ =~= old(rb)@.skip((PACKET_SIZE as int) * (k + 1)));
        }
    }
    proof {
        let len = old(rb)@.len() as int;
        let k = packets@.len() as int;
        assert(k == len / (PACKET_SIZE as int)) by (nonlinear_arith)
            requires
                0 <= k,
                (PACKET_SIZE as int) * k <= len,
                len - (PACKET_SIZE as int) * k < (PACKET_SIZE as int),
                PACKET_SIZE == 480,
        ;
    }
    packets
}

/// Matching framing: when one cycle carries exactly one packet's worth
/// of bytes into a buffer drained empty, the next drain yields exactly
/// one packet, holding exactly that cycle's bytes, and drains the
/// buffer empty again.  Chained with the contracts of `sender_cycle`
/// and `drain_packets`, N such cycles produce exactly N packets.
pub proof fn lemma_one_packet_per_cycle(cycle_bytes: Seq<u8>)
    requires
        cycle_bytes.len() == PACKET_SIZE,
    ensures
        (cycle_bytes.len() as int) / (PACKET_SIZE as int) == 1,
        cycle_bytes.subrange(0, PACKET_SIZE as int) == cycle_bytes,
        cycle_bytes.skip(PACKET_SIZE as int) == Seq::<u8>::empty(),
{
    assert(cycle_bytes.subrange(0, PACKET_SIZE as int) =~= cycle_bytes);
    assert(cycle_bytes.skip(PACKET_SIZE as int) =~= Seq::<u8>::empty());
}

/// The network loop drains and sends only when paced to: on `Ready`,
/// or when the diagnostic channel has closed (`None`), which is treated
/// exactly like `Ready`.  Any other message is only reported.
pub open spec fn triggers_drain(message: Option<DiagnosticMessage>) -> bool {
    message is None || message == Some(DiagnosticMessage::Ready)
}

/// One turn of the sender's network loop, given the diagnostic message
/// it just received (`None` when the channel has closed): on `Ready`,
/// or on a closed channel, every full packet is drained from the ring
/// buffer for sending; on any other message nothing moves, and the
/// caller logs the message itself.
pub fn sender_network_step(rb: &mut RingBuffer, message: Option<DiagnosticMessage>) -> (packets:
    Vec<Vec<u8>>)
    requires
        old(rb).wf(),
    ensures
        final(rb).wf(),
        final(rb).capacity() == old(rb).capacity(),
        !triggers_drain(message) ==> final(rb)@ == old(rb)@ && packets@.len() == 0,
        triggers_drain(message) ==> {
            &&& packets@.len() == (old(rb)@.len() as int) / (PACKET_SIZE as int)
            &&& (forall|i: int|
                0 <= i < packets@.len() ==> (#[trigger] packets@[i])@ == old(rb)@.subrange(
                    (PACKET_SIZE as int) * i,
                    (PACKET_SIZE as int) * (i + 1),
                ))
            &&& final(rb)@ == old(rb)@.skip(
                (PACKET_SIZE as int) * ((old(rb)@.len() as int) / (PACKET_SIZE as int)),
            )
            &&& final(rb)@.len() < PACKET_SIZE
        },
{
    match message {
        None => drain_packets(rb),
        Some(DiagnosticMessage::Ready) => drain_packets(rb),
        Some(_) => Vec::new(),
    }
}

} // verus!
