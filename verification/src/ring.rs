//! Fixed-capacity circular byte buffer.
//!
//! One producer writes at the tail, one consumer reads at the head;
//! offsets wrap around the fixed capacity chosen at construction.  The
//! buffer is viewed as the sequence of readable bytes, oldest first:
//! `write` appends to that sequence and `read_exact` removes a prefix,
//! so the byte stream comes out exactly as it went in.

use vstd::prelude::*;

verus! {

/// Physical cell holding the byte `i` positions past cell `base`, in a
/// buffer of `cap` cells, for `base + i < 2 * cap`: the offset wraps
/// around the end of the storage at most once.
pub open spec fn wrap_index(cap: int, i: int) -> int {
    if i < cap {
        i
    } else {
        i - cap
    }
}

/// Fixed-capacity circular byte buffer.  The capacity is set once at
/// construction and never changes; occupancy can never exceed it, and a
/// reader can never consume bytes that were not written.
pub struct RingBuffer {
    storage: Vec<u8>,
    head: usize,
    count: usize,
}

impl View for RingBuffer {
    type V = Seq<u8>;

    /// The bytes currently buffered, oldest first.
    closed spec fn view(&self) -> Seq<u8> {
        Seq::new(
            self.count as nat,
            |i: int| self.storage@[wrap_index(self.storage@.len() as int, self.head + i)],
        )
    }
}

impl RingBuffer {
    /// Byte capacity fixed at construction.
    pub closed spec fn capacity(&self) -> nat {
        self.storage@.len()
    }

    /// Well-formedness: the read cursor lies inside the storage and the
    /// occupancy never exceeds the capacity.
    pub closed spec fn wf(&self) -> bool {
        &&& self.head < self.storage@.len()
        &&& self.count <= self.storage@.len()
    }

    /// A well-formed buffer never holds more bytes than its capacity.
    pub proof fn lemma_occupancy_bounded(&self)
        requires
            self.wf(),
        ensures
            self@.len() <= self.capacity(),
    {
    }

    /// Creates an empty buffer of the given byte capacity.
    pub fn new(capacity: usize) -> (rb: RingBuffer)
        requires
            capacity >= 1,
        ensures
            rb.wf(),
            rb.capacity() == capacity,
            rb@ == Seq::<u8>::empty(),
    {
        let mut storage: Vec<u8> = Vec::new();
        let mut i: usize = 0;
        while i < capacity
            invariant
                i <= capacity,
                storage@.len() == i,
            decreases capacity - i,
        {
            storage.push(0u8);
            i = i + 1;
        }
        let rb = RingBuffer { storage, head: 0, count: 0 };
        proof {
            assert(rb@ =~= Seq::<u8>::empty());
        }
        rb
    }

    /// Free space currently left for the writer, in bytes.
    pub fn writable_bytes(&self) -> (r: usize)
        requires
            self.wf(),
        ensures
            r == self.capacity() - self@.len(),
    {
        self.storage.len() - self.count
    }

    /// Bytes currently available to the reader.
    pub fn readable_bytes(&self) -> (r: usize)
        requires
            self.wf(),
        ensures
            r == self@.len(),
    {
        self.count
    }

    /// Appends `bytes` after the bytes already buffered.  The caller
    /// must have confirmed sufficient free space; the copy is O(n) and
    /// allocation-free.
    pub fn write(&mut self, bytes: &[u8])
        requires
            old(self).wf(),
            bytes@.len() <= old(self).capacity() - old(self)@.len(),
        ensures
            final(self).wf(),
            final(self).capacity() == old(self).capacity(),
            final(self)@ == old(self)@ + bytes@,
    {
        let cap = self.storage.len();
        let free = cap - self.count;
        let mut pos: usize = if self.head >= free {
            self.head - free
        } else {
            self.head + self.count
        };
        let mut i: usize = 0;
        while i < bytes.len()
            invariant
                self.wf(),
                self.storage@.len() == cap,
                self.head == old(self).head,
                self.count == old(self).count,
                i <= bytes@.len(),
                bytes@.len() <= cap - self.count,
                pos == wrap_index(cap as int, self.head + self.count + i),
                0 <= pos < cap,
                self@ == old(self)@,
                forall|j: int|
                    0 <= j < i ==> self.storage@[#[trigger] wrap_index(
                        cap as int,
                        self.head + self.count + j,
                    )] == bytes@[j],
            decreases bytes@.len() - i,
        {
            let ghost prev = self@;
            let ghost prev_storage = self.storage@;
            self.storage.set(pos, bytes[i]);
            proof {
                assert forall|k: int| 0 <= k < self.count implies self.storage@[#[trigger] wrap_index(
                    cap as int,
                    self.head + k,
                )] == prev_storage[wrap_index(cap as int, self.head + k)] by {
                    assert(wrap_index(cap as int, self.head + k) != wrap_index(
                        cap as int,
                        self.head + self.count + i,
                    ));
                }
                assert(self@ =~= prev);
                assert forall|j: int| 0 <= j < i + 1 implies self.storage@[#[trigger] wrap_index(
                    cap as int,
                    self.head + self.count + j,
                )] == bytes@[j] by {
                    if j < i {
                        assert(wrap_index(cap as int, self.head + self.count + j) != wrap_index(
                            cap as int,
                            self.head + self.count + i,
                        ));
                    }
                }
            }
            i = i + 1;
            pos = if pos + 1 == cap {
                0
            } else {
                pos + 1
            };
        }
        proof {
            assert forall|k: int|
                0 <= k < self.count implies self.storage@[#[trigger] wrap_index(
                cap as int,
                self.head + k,
            )] == old(self)@[k] by {
                assert(self@[k] == old(self)@[k]);
            }
        }
        self.count = self.count + bytes.len();
        proof {
            assert forall|k: int| 0 <= k < self.count implies self@[k] == (old(self)@
                + bytes@)[k] by {
                if k >= old(self).count {
                    let j = k - old(self).count;
                    assert(self.storage@[wrap_index(
                        cap as int,
                        self.head + old(self).count + j,
                    )] == bytes@[j]);
                }
            }
            assert(self@ =~= old(self)@ + bytes@);
        }
    }

    /// Removes and returns the `n` oldest buffered bytes.  The caller
    /// must have confirmed that at least `n` bytes are readable.
    pub fn read_exact(&mut self, n: usize) -> (data: Vec<u8>)
        requires
            old(self).wf(),
            n <= old(self)@.len(),
        ensures
            final(self).wf(),
            final(self).capacity() == old(self).capacity(),
            data@ == old(self)@.take(n as int),
            final(self)@ == old(self)@.skip(n as int),
    {
        let cap = self.storage.len();
        let mut data: Vec<u8> = Vec::new();
        let mut cur: usize = self.head;
        let mut j: usize = 0;
        while j < n
            invariant
                self.wf(),
                self == old(self),
                self.storage@.len() == cap,
                n <= self@.len(),
                j <= n,
                cur == wrap_index(cap as int, self.head + j),
                0 <= cur < cap,
                data@ == self@.take(j as int),
            decreases n - j,
        {
            data.push(self.storage[cur]);
            proof {
                assert(self.storage@[wrap_index(cap as int, self.head + j)] == self@[j as int]);
                assert(data@ =~= self@.take(j + 1));
            }
            j = j + 1;
            cur = if cur + 1 == cap {
                0
            } else {
                cur + 1
            };
        }
        self.head = cur;
        self.count = self.count - n;
        proof {
            assert forall|i: int| 0 <= i < self.count implies self@[i] == old(self)@.skip(
                n as int,
            )[i] by {
                assert(wrap_index(cap as int, self.head + i) == wrap_index(
                    cap as int,
                    old(self).head + (n + i),
                ));
            }
            assert(self@ =~= old(self)@.skip(n as int));
        }
        data
    }
}

/// First-in-first-out law for the buffered byte stream: after appending
/// `x` to a buffer holding `buffered`, the `x.len()` bytes that follow
/// the previously buffered ones are exactly `x`.  In particular, on an
/// empty buffer, `write(x)` followed by `read_exact(x.len())` returns
/// `x` unchanged and leaves the buffer empty, by the contracts of
/// `write` and `read_exact`.
pub proof fn lemma_write_read_round_trip(buffered: Seq<u8>, x: Seq<u8>)
    ensures
        (buffered + x).subrange(buffered.len() as int, (buffered.len() + x.len()) as int) == x,
        buffered.len() == 0 ==> (buffered + x).take(x.len() as int) == x && (buffered
            + x).skip(x.len() as int) == Seq::<u8>::empty(),
{
    assert((buffered + x).subrange(buffered.len() as int, (buffered.len() + x.len()) as int)
        =~= x);
    if buffered.len() == 0 {
        assert((buffered + x).take(x.len() as int) =~= x);
        assert((buffered + x).skip(x.len() as int) =~= Seq::<u8>::empty());
    }
}

} // verus!
