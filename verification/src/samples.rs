//! Interleaving of stereo channels and packing of 32-bit samples into
//! wire bytes.
//!
//! A frame is one (left, right) pair of 32-bit PCM samples; on the wire
//! the two channels travel as one alternating L,R,L,R,... sequence of
//! samples, each sample as four little-endian bytes.  A sample is
//! handled by its 32 raw bits; turning those bits into a float is the
//! caller's business.

use vstd::prelude::*;

verus! {

/// The alternating L,R,L,R,... merge of two equal-length channels.
pub open spec fn interleaved<T>(left: Seq<T>, right: Seq<T>) -> Seq<T> {
    Seq::new(
        (left.len() * 2) as nat,
        |i: int|
            if i % 2 == 0 {
                left[i / 2]
            } else {
                right[i / 2]
            },
    )
}

/// The elements at even positions: the left channel of an interleaved
/// stream.
pub open spec fn even_elements<T>(s: Seq<T>) -> Seq<T> {
    Seq::new((s.len() / 2) as nat, |i: int| s[2 * i])
}

/// The elements at odd positions: the right channel of an interleaved
/// stream.
pub open spec fn odd_elements<T>(s: Seq<T>) -> Seq<T> {
    Seq::new((s.len() / 2) as nat, |i: int| s[2 * i + 1])
}

/// Combines left/right channels into one interleaved sequence, or
/// `None` when the channel lengths differ.
pub fn interleave<T: Copy>(left: &[T], right: &[T]) -> (r: Option<Vec<T>>)
    ensures
        r is Some <==> left@.len() == right@.len(),
        r matches Some(v) ==> v@ == interleaved(left@, right@),
{
    if left.len() != right.len() {
        return None;
    }
    let mut out: Vec<T> = Vec::new();
    let mut i: usize = 0;
    while i < left.len()
        invariant
            left@.len() == right@.len(),
            i <= left@.len(),
            out@.len() == 2 * i,
            forall|k: int|
                0 <= k < 2 * i ==> out@[k] == (if k % 2 == 0 {
                    left@[k / 2]
                } else {
                    right@[k / 2]
                }),
        decreases left@.len() - i,
    {
        out.push(left[i]);
        out.push(right[i]);
        i = i + 1;
    }
    proof {
        assert(out@ =~= interleaved(left@, right@));
    }
    Some(out)
}

/// Splits an interleaved sequence back into its left/right channels, or
/// `None` when the sample count is odd.
pub fn deinterleave<T: Copy>(data: &[T]) -> (r: Option<(Vec<T>, Vec<T>)>)
    ensures
        r is Some <==> data@.len() % 2 == 0,
        r matches Some(p) ==> p.0@ == even_elements(data@) && p.1@ == odd_elements(data@),
{
    if data.len() % 2 != 0 {
        return None;
    }
    let half = data.len() / 2;
    let mut left: Vec<T> = Vec::new();
    let mut right: Vec<T> = Vec::new();
    let mut i: usize = 0;
    while i < half
        invariant
            data@.len() % 2 == 0,
            data@.len() <= usize::MAX,
            half == data@.len() / 2,
            i <= half,
            left@.len() == i,
            right@.len() == i,
            forall|k: int| 0 <= k < i ==> left@[k] == data@[2 * k],
            forall|k: int| 0 <= k < i ==> right@[k] == data@[2 * k + 1],
        decreases half - i,
    {
        left.push(data[2 * i]);
        right.push(data[2 * i + 1]);
        i = i + 1;
    }
    proof {
        assert(left@ =~= even_elements(data@));
        assert(right@ =~= odd_elements(data@));
    }
    Some((left, right))
}

/// Interleaving then deinterleaving gives the two channels back
/// unchanged: the two operations are mutual inverses.
pub proof fn lemma_deinterleave_of_interleave<T>(left: Seq<T>, right: Seq<T>)
    requires
        left.len() == right.len(),
    ensures
        even_elements(interleaved(left, right)) == left,
        odd_elements(interleaved(left, right)) == right,
{
    assert(even_elements(interleaved(left, right)) =~= left);
    assert(odd_elements(interleaved(left, right)) =~= right);
}

/// Deinterleaving then interleaving rebuilds the interleaved stream:
/// the inverse holds in the other direction as well, for any stream
/// with a whole number of frames.
pub proof fn lemma_interleave_of_deinterleave<T>(data: Seq<T>)
    requires
        data.len() % 2 == 0,
    ensures
        interleaved(even_elements(data), odd_elements(data)) == data,
{
    assert forall|i: int|
        0 <= i < data.len() implies interleaved(even_elements(data), odd_elements(data))[i]
        == data[i] by {
        if i % 2 == 0 {
            assert(2 * (i / 2) == i);
        } else {
            assert(2 * (i / 2) + 1 == i);
        }
    }
    assert(interleaved(even_elements(data), odd_elements(data)) =~= data);
}

/// The four little-endian bytes of one 32-bit sample.
pub open spec fn sample_le_bytes(x: u32) -> Seq<u8> {
    seq![
        (x & 0xff) as u8,
        ((x >> 8) & 0xff) as u8,
        ((x >> 16) & 0xff) as u8,
        ((x >> 24) & 0xff) as u8,
    ]
}

/// The 32-bit sample read back from four little-endian bytes.
pub open spec fn sample_of_le_bytes(b0: u8, b1: u8, b2: u8, b3: u8) -> u32 {
    (b0 as u32) | ((b1 as u32) << 8) | ((b2 as u32) << 16) | ((b3 as u32) << 24)
}

/// The wire form of a sample sequence: each sample as four
/// little-endian bytes, in stream order.
pub open spec fn bytes_of_samples(s: Seq<u32>) -> Seq<u8> {
    Seq::new((s.len() * 4) as nat, |i: int| sample_le_bytes(s[i / 4])[i % 4])
}

/// The sample sequence read back from its wire form.
pub open spec fn samples_of_bytes(b: Seq<u8>) -> Seq<u32> {
    Seq::new(
        (b.len() / 4) as nat,
        |i: int| sample_of_le_bytes(b[4 * i], b[4 * i + 1], b[4 * i + 2], b[4 * i + 3]),
    )
}

/// Packs samples into their wire bytes.
pub fn samples_to_bytes(samples: &[u32]) -> (r: Vec<u8>)
    ensures
        r@ == bytes_of_samples(samples@),
{
    let mut out: Vec<u8> = Vec::new();
    let mut i: usize = 0;
    while i < samples.len()
        invariant
            i <= samples@.len(),
            out@.len() == 4 * i,
            forall|k: int| 0 <= k < 4 * i ==> out@[k] == sample_le_bytes(samples@[k / 4])[k % 4],
        decreases samples@.len() - i,
    {
        let x = samples[i];
        out.push((x & 0xff) as u8);
        out.push(((x >> 8) & 0xff) as u8);
        out.push(((x >> 16) & 0xff) as u8);
        out.push(((x >> 24) & 0xff) as u8);
        proof {
            assert forall|k: int|
                0 <= k < 4 * (i + 1) implies out@[k] == sample_le_bytes(samples@[k / 4])[k
                % 4] by {
                if k >= 4 * i {
                    assert(k / 4 == i);
                    assert(k % 4 == k - 4 * i);
                }
            }
        }
        i = i + 1;
    }
    proof {
        assert(out@ =~= bytes_of_samples(samples@));
    }
    out
}

/// Unpacks wire bytes back into samples; the byte count must be a whole
/// number of samples.
pub fn bytes_to_samples(bytes: &[u8]) -> (r: Vec<u32>)
    requires
        bytes@.len() % 4 == 0,
    ensures
        r@ == samples_of_bytes(bytes@),
{
    let n = bytes.len() / 4;
    let mut out: Vec<u32> = Vec::new();
    let mut i: usize = 0;
    while i < n
        invariant
            bytes@.len() % 4 == 0,
            bytes@.len() <= usize::MAX,
            n == bytes@.len() / 4,
            i <= n,
            out@.len() == i,
            forall|k: int|
                0 <= k < i ==> out@[k] == sample_of_le_bytes(
                    bytes@[4 * k],
                    bytes@[4 * k + 1],
                    bytes@[4 * k + 2],
                    bytes@[4 * k + 3],
                ),
        decreases n - i,
    {
        let x = (bytes[4 * i] as u32) | ((bytes[4 * i + 1] as u32) << 8) | ((bytes[4 * i + 2]
            as u32) << 16) | ((bytes[4 * i + 3] as u32) << 24);
        out.push(x);
        i = i + 1;
    }
    proof {
        assert(out@ =~= samples_of_bytes(bytes@));
    }
    out
}

/// Packing a sample into four bytes and reading them back gives the
/// sample again.
pub proof fn lemma_sample_bytes_inverse(x: u32)
    ensures
        sample_of_le_bytes(
            (x & 0xff) as u8,
            ((x >> 8) & 0xff) as u8,
            ((x >> 16) & 0xff) as u8,
            ((x >> 24) & 0xff) as u8,
        ) == x,
{
    assert(((x & 0xff) as u8 as u32) | (((x >> 8) & 0xff) as u8 as u32) << 8 | (((x >> 16)
        & 0xff) as u8 as u32) << 16 | (((x >> 24) & 0xff) as u8 as u32) << 24 == x)
        by (bit_vector);
}

/// Packing a sample sequence into wire bytes and unpacking them gives
/// the sequence back unchanged.
pub proof fn lemma_samples_of_bytes_of_samples(s: Seq<u32>)
    ensures
        samples_of_bytes(bytes_of_samples(s)) == s,
{
    let b = bytes_of_samples(s);
    assert forall|i: int| 0 <= i < s.len() implies samples_of_bytes(b)[i] == s[i] by {
        assert((4 * i) / 4 == i && (4 * i) % 4 == 0);
        assert((4 * i + 1) / 4 == i && (4 * i + 1) % 4 == 1);
        assert((4 * i + 2) / 4 == i && (4 * i + 2) % 4 == 2);
        assert((4 * i + 3) / 4 == i && (4 * i + 3) % 4 == 3);
        lemma_sample_bytes_inverse(s[i]);
    }
    assert(samples_of_bytes(bytes_of_samples(s)) =~= s);
}

/// End-to-end inverse for one cycle's samples: interleaving two
/// channels, packing the stream into wire bytes, unpacking the bytes
/// and deinterleaving gives both channels back unchanged.  This chains
/// the sender pipeline into the receiver pipeline.
pub proof fn lemma_pipeline_round_trip(left: Seq<u32>, right: Seq<u32>)
    requires
        left.len() == right.len(),
    ensures
        even_elements(samples_of_bytes(bytes_of_samples(interleaved(left, right)))) == left,
        odd_elements(samples_of_bytes(bytes_of_samples(interleaved(left, right)))) == right,
{
    lemma_samples_of_bytes_of_samples(interleaved(left, right));
    lemma_deinterleave_of_interleave(left, right);
}

} // verus!
