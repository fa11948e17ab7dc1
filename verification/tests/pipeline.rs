use netaudio::PACKET_SIZE;
use netaudio::diag::{Control, DiagnosticMessage};
use netaudio::receiver::{PacketOutcome, receiver_cycle, accept_packet};
use netaudio::ring::RingBuffer;
use netaudio::samples::samples_to_bytes;
use netaudio::sender::{drain_packets, sender_cycle, sender_network_step};

const SCRATCH: usize = 32768;

fn frames(base: u32, n: usize) -> (Vec<u32>, Vec<u32>) {
    let left: Vec<u32> = (0..n as u32).map(|i| base + 2 * i).collect();
    let right: Vec<u32> = (0..n as u32).map(|i| base + 2 * i + 1).collect();
    (left, right)
}

#[test]
fn sender_cycle_writes_interleaved_bytes() {
    let mut rb = RingBuffer::new(16384);
    let res = sender_cycle(&mut rb, &[1u32, 3], &[2u32, 4], SCRATCH);
    assert_eq!(res.control, Control::Continue);
    assert_eq!(res.messages, vec![DiagnosticMessage::Ready]);
    assert_eq!(rb.readable_bytes(), 16);
    let bytes = rb.read_exact(16);
    assert_eq!(bytes, samples_to_bytes(&[1, 2, 3, 4]));
}

#[test]
fn empty_cycles_move_nothing() {
    let mut rb = RingBuffer::new(64);
    let sent = sender_cycle(&mut rb, &[], &[], SCRATCH);
    assert_eq!(sent.control, Control::Continue);
    assert_eq!(sent.messages, vec![DiagnosticMessage::Ready]);
    assert_eq!(rb.readable_bytes(), 0);
    let got = receiver_cycle(&mut rb, 0, 0, SCRATCH);
    assert_eq!(got.control, Control::Continue);
    assert!(got.messages.is_empty());
    assert!(got.left.is_empty());
    assert!(got.right.is_empty());
}

#[test]
fn sender_cycle_rejects_mismatched_lengths() {
    let mut rb = RingBuffer::new(64);
    let res = sender_cycle(&mut rb, &[1u32, 2, 3], &[4u32, 5], SCRATCH);
    assert_eq!(res.control, Control::Quit);
    assert_eq!(res.messages, vec![DiagnosticMessage::InvalidBufferLengths]);
    assert_eq!(rb.readable_bytes(), 0);
}

#[test]
fn sender_cycle_rejects_oversized_cycles() {
    let mut rb = RingBuffer::new(64);
    let res = sender_cycle(&mut rb, &[1u32, 2, 3], &[4u32, 5, 6], 4);
    assert_eq!(res.control, Control::Quit);
    assert_eq!(res.messages, vec![DiagnosticMessage::InvalidBufferLengths]);
    assert_eq!(rb.readable_bytes(), 0);
}

#[test]
fn overrun_drops_the_cycle_and_reports_counts() {
    let mut rb = RingBuffer::new(16);
    rb.write(&[7, 7, 7, 7]);
    let res = sender_cycle(&mut rb, &[1u32, 2, 3], &[4u32, 5, 6], SCRATCH);
    assert_eq!(res.control, Control::Continue);
    assert_eq!(
        res.messages,
        vec![
            DiagnosticMessage::Overrun { expected: 24, available: 12 },
            DiagnosticMessage::Ready,
        ]
    );
    // Zero bytes were written: only the four old ones are buffered.
    assert_eq!(rb.readable_bytes(), 4);
    assert_eq!(rb.read_exact(4), vec![7, 7, 7, 7]);
}

#[test]
fn underrun_outputs_silence_and_reports_counts() {
    let mut rb = RingBuffer::new(16384);
    rb.write(&[1, 2, 3, 4]);
    let res = receiver_cycle(&mut rb, 60, 60, SCRATCH);
    assert_eq!(res.control, Control::Continue);
    assert_eq!(
        res.messages,
        vec![DiagnosticMessage::Underrun { expected: 480, available: 4 }]
    );
    assert_eq!(res.left, vec![0u32; 60]);
    assert_eq!(res.right, vec![0u32; 60]);
    // The buffer state is unchanged.
    assert_eq!(rb.readable_bytes(), 4);
    assert_eq!(rb.read_exact(4), vec![1, 2, 3, 4]);
}

#[test]
fn receiver_cycle_rejects_mismatched_lengths() {
    let mut rb = RingBuffer::new(64);
    rb.write(&[1, 2, 3, 4]);
    let res = receiver_cycle(&mut rb, 3, 2, SCRATCH);
    assert_eq!(res.control, Control::Quit);
    assert_eq!(res.messages, vec![DiagnosticMessage::InvalidBufferLengths]);
    assert!(res.left.is_empty());
    assert!(res.right.is_empty());
    assert_eq!(rb.readable_bytes(), 4);
}

#[test]
fn receiver_cycle_rejects_oversized_cycles() {
    let mut rb = RingBuffer::new(64);
    let res = receiver_cycle(&mut rb, 3, 3, 4);
    assert_eq!(res.control, Control::Quit);
    assert_eq!(res.messages, vec![DiagnosticMessage::InvalidBufferLengths]);
}

#[test]
fn sender_to_receiver_reproduces_the_samples() {
    let mut rb = RingBuffer::new(16384);
    let (left, right) = frames(1000, 60);
    let sent = sender_cycle(&mut rb, &left, &right, SCRATCH);
    assert_eq!(sent.messages, vec![DiagnosticMessage::Ready]);
    let got = receiver_cycle(&mut rb, 60, 60, SCRATCH);
    assert_eq!(got.control, Control::Continue);
    assert!(got.messages.is_empty());
    assert_eq!(got.left, left);
    assert_eq!(got.right, right);
    assert_eq!(rb.readable_bytes(), 0);
}

#[test]
fn wrong_sized_datagrams_are_never_enqueued() {
    let mut rb = RingBuffer::new(16384);
    let short = vec![1u8; 479];
    let long = vec![2u8; 481];
    assert_eq!(
        accept_packet(&mut rb, &short),
        PacketOutcome::WrongSize { received: 479 }
    );
    assert_eq!(
        accept_packet(&mut rb, &long),
        PacketOutcome::WrongSize { received: 481 }
    );
    assert_eq!(rb.readable_bytes(), 0);
    // The buffered stream is formed from the valid datagram alone.
    let good = vec![3u8; 480];
    assert_eq!(accept_packet(&mut rb, &good), PacketOutcome::Enqueued);
    assert_eq!(rb.readable_bytes(), 480);
    assert_eq!(rb.read_exact(480), good);
}

#[test]
fn one_packet_per_cycle_at_matching_framing() {
    // Sixty frames per cycle is one packet's worth of bytes: after N
    // cycles the network loop has sent exactly N packets.
    let mut rb = RingBuffer::new(16384);
    let n_cycles: usize = 12;
    let mut packets_sent: usize = 0;
    for c in 0..n_cycles {
        let (left, right) = frames(10_000 * c as u32, 60);
        let res = sender_cycle(&mut rb, &left, &right, SCRATCH);
        assert_eq!(res.messages, vec![DiagnosticMessage::Ready]);
        let packets = sender_network_step(&mut rb, Some(DiagnosticMessage::Ready));
        assert_eq!(packets.len(), 1);
        assert_eq!(packets[0].len(), PACKET_SIZE);
        packets_sent += packets.len();
    }
    assert_eq!(packets_sent, n_cycles);
    assert_eq!(rb.readable_bytes(), 0);
}

#[test]
fn full_buffer_drops_packets_and_reports_overrun() {
    // Room for exactly two packets and never more: once the buffer is
    // full every further datagram is dropped whole.
    let mut rb = RingBuffer::new(2 * PACKET_SIZE);
    let packet = vec![9u8; PACKET_SIZE];
    assert_eq!(accept_packet(&mut rb, &packet), PacketOutcome::Enqueued);
    assert_eq!(accept_packet(&mut rb, &packet), PacketOutcome::Enqueued);
    for _ in 0..3 {
        assert_eq!(
            accept_packet(&mut rb, &packet),
            PacketOutcome::Overrun { expected: PACKET_SIZE, available: 0 }
        );
        assert_eq!(rb.readable_bytes(), 2 * PACKET_SIZE);
    }
    // Consuming one packet makes room for exactly one more.
    let _ = rb.read_exact(PACKET_SIZE);
    assert_eq!(accept_packet(&mut rb, &packet), PacketOutcome::Enqueued);
    assert_eq!(rb.readable_bytes(), 2 * PACKET_SIZE);
}

#[test]
fn drain_leaves_partial_packets_buffered() {
    let mut rb = RingBuffer::new(16384);
    let bytes = vec![5u8; PACKET_SIZE + 20];
    rb.write(&bytes);
    let packets = drain_packets(&mut rb);
    assert_eq!(packets.len(), 1);
    assert_eq!(packets[0], vec![5u8; PACKET_SIZE]);
    assert_eq!(rb.readable_bytes(), 20);
}

#[test]
fn closed_channel_paces_the_drain_like_ready() {
    let mut rb = RingBuffer::new(16384);
    rb.write(&vec![1u8; PACKET_SIZE]);
    let packets = sender_network_step(&mut rb, None);
    assert_eq!(packets.len(), 1);
    assert_eq!(rb.readable_bytes(), 0);
}

#[test]
fn warning_messages_do_not_drain() {
    let mut rb = RingBuffer::new(16384);
    rb.write(&vec![1u8; PACKET_SIZE]);
    let overrun = DiagnosticMessage::Overrun { expected: 480, available: 0 };
    let packets = sender_network_step(&mut rb, Some(overrun));
    assert!(packets.is_empty());
    assert_eq!(rb.readable_bytes(), PACKET_SIZE);
    let invalid = DiagnosticMessage::InvalidBufferLengths;
    let packets = sender_network_step(&mut rb, Some(invalid));
    assert!(packets.is_empty());
    assert_eq!(rb.readable_bytes(), PACKET_SIZE);
}
