//! Diagnostic protocol between the real-time thread and the
//! housekeeping thread.
//!
//! The real-time callback may not block, allocate or log, so it reports
//! the outcome of each cycle as one tagged message on a one-way,
//! non-blocking-send channel; the housekeeping thread drains the
//! channel and does the logging.

use vstd::prelude::*;

verus! {

/// Outcome of the most recent audio-callback invocation, as reported to
/// the housekeeping thread.
#[derive(Clone, Copy, Debug, PartialEq, Eq, Structural)]
pub enum DiagnosticMessage {
    /// The cycle completed without a structural violation; on the
    /// sender this also paces the drain-and-send loop.
    Ready,
    /// The host handed buffers of mismatched channel lengths, or more
    /// samples than the scratch buffer can hold; fatal to the audio
    /// path.
    InvalidBufferLengths,
    /// The reader needed `expected` bytes but only `available` were
    /// buffered; the cycle was filled with silence instead.
    Underrun { expected: usize, available: usize },
    /// The writer needed `expected` bytes of free space but only
    /// `available` were left; the cycle's samples were dropped.
    Overrun { expected: usize, available: usize },
}

/// What the audio callback asks of the host after a cycle: keep
/// invoking it, or stop the audio path for good.
#[derive(Clone, Copy, Debug, PartialEq, Eq, Structural)]
pub enum Control {
    Continue,
    Quit,
}

} // verus!
