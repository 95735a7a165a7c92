//! Fixed-capacity circular byte buffer over raw signed 16-bit little-endian
//! mono samples, fed from a live, non-blocking PCM source.
//!
//! The writer appends at `tail`, which wraps modulo `capacity`; `length`
//! records how many bytes have ever been valid, saturating at `capacity`
//! once the buffer has filled at least once. A reader asks where the block
//! that starts a given number of sample frames before the most recent write
//! begins.

use vstd::prelude::*;

verus! {

/// The signed value of a 16-bit little-endian sample stored as two bytes.
pub open spec fn sample_spec(lo: u8, hi: u8) -> int {
    let u = hi * 256 + lo;
    if u < 32768 {
        u as int
    } else {
        u - 65536
    }
}

/// Decode one little-endian signed 16-bit sample.
pub fn i16_from_le(lo: u8, hi: u8) -> (r: i16)
    ensures
        r as int == sample_spec(lo, hi),
{
    let u: u16 = (hi as u16) * 256 + (lo as u16);
    if u < 32768 {
        u as i16
    } else {
        let mag: u16 = 65535 - u;
        -1 - (mag as i16)
    }
}

/// Circular byte buffer for 16-bit samples.
pub struct RingSignal16Buffer {
    capacity: i32,
    tail: i32,
    length: i32,
    buffer: Vec<u8>,
}

impl RingSignal16Buffer {
    /// Well-formedness: the cursor wraps inside the buffer, the recorded
    /// length never exceeds the capacity, and the backing storage has
    /// exactly `capacity` bytes.
    pub open spec fn wf(&self) -> bool {
        &&& 0 < self.spec_capacity() <= 0x2000_0000
        &&& self.spec_capacity() % 2 == 0
        &&& 0 <= self.spec_tail() < self.spec_capacity()
        &&& 0 <= self.spec_length() <= self.spec_capacity()
        &&& self.spec_bytes().len() == self.spec_capacity()
    }

    /// The capacity in bytes.
    pub closed spec fn spec_capacity(&self) -> int {
        self.capacity as int
    }

    /// The write cursor.
    pub closed spec fn spec_tail(&self) -> int {
        self.tail as int
    }

    /// The recorded length.
    pub closed spec fn spec_length(&self) -> int {
        self.length as int
    }

    /// The backing bytes.
    pub closed spec fn spec_bytes(&self) -> Seq<u8> {
        self.buffer@
    }

    /// A buffer of `max_entry` 16-bit entries (two bytes each), empty, with
    /// the write cursor at the start.
    pub fn new(max_entry: usize) -> (r: RingSignal16Buffer)
        requires
            1 <= max_entry <= 0x1000_0000,
        ensures
            r.wf(),
            r.spec_capacity() == 2 * max_entry,
            r.spec_tail() == 0,
            r.spec_length() == 0,
            r.spec_bytes() == Seq::new((2 * max_entry) as nat, |i: int| 0u8),
    {
        let n: usize = max_entry * 2;
        let mut buffer: Vec<u8> = Vec::new();
        let mut i: usize = 0;
        while i < n
            invariant
                i <= n,
                buffer@.len() == i,
                forall|k: int| 0 <= k < i ==> buffer@[k] == 0u8,
            decreases n - i,
        {
            buffer.push(0u8);
            i = i + 1;
        }
        proof {
            assert(buffer@ =~= Seq::new((2 * max_entry) as nat, |i: int| 0u8));
        }
        RingSignal16Buffer { capacity: n as i32, tail: 0, length: 0, buffer }
    }

    /// The capacity in bytes.
    pub fn capacity(&self) -> (c: i32)
        ensures
            c == self.spec_capacity(),
    {
        self.capacity
    }

    /// The write cursor.
    pub fn tail_pos(&self) -> (t: i32)
        ensures
            t == self.spec_tail(),
    {
        self.tail
    }

    /// The recorded length.
    pub fn recorded_len(&self) -> (l: i32)
        ensures
            l == self.spec_length(),
    {
        self.length
    }

    /// Forget everything recorded; the storage keeps its bytes.
    pub fn clean(&mut self)
        requires
            old(self).wf(),
        ensures
            final(self).wf(),
            final(self).spec_tail() == 0,
            final(self).spec_length() == 0,
            final(self).spec_capacity() == old(self).spec_capacity(),
            final(self).spec_bytes() == old(self).spec_bytes(),
    {
        self.tail = 0;
        self.length = 0;
    }

    /// How many bytes can be read into the buffer before the write cursor
    /// must wrap: a producer reads at most this many bytes per attempt.
    pub fn once_readable_len(&mut self) -> (r: i32)
        requires
            old(self).wf(),
        ensures
            *final(self) == *old(self),
            r == old(self).spec_capacity() - old(self).spec_tail(),
            0 < r <= old(self).spec_capacity(),
    {
        self.capacity - self.tail
    }

    /// Record that `read_bytes` bytes were just written at the cursor:
    /// advance `tail` modulo the capacity and grow `length`, saturating at
    /// the capacity.
    pub fn after_read(&mut self, read_bytes: i32)
        requires
            old(self).wf(),
            0 <= read_bytes <= old(self).spec_capacity() - old(self).spec_tail(),
        ensures
            final(self).wf(),
            final(self).spec_capacity() == old(self).spec_capacity(),
            final(self).spec_bytes() == old(self).spec_bytes(),
            final(self).spec_length() == vstd::math::min(
                old(self).spec_length() + read_bytes,
                old(self).spec_capacity(),
            ),
            final(self).spec_tail() == (old(self).spec_tail() + read_bytes) % old(
                self,
            ).spec_capacity(),
    {
        if self.length < self.capacity {
            self.length = self.length + read_bytes;
            if self.length > self.capacity {
                self.length = self.capacity;
            }
        }
        self.tail = (self.tail + read_bytes) % self.capacity;
    }

    /// The buffer offset of the block that starts `entry_num` sample frames
    /// (two bytes each) before the most recent write, or `None` when the
    /// buffer has not recorded that much data.
    pub fn before_pos(&mut self, entry_num: i32) -> (r: Option<i32>)
        requires
            old(self).wf(),
            0 <= entry_num,
        ensures
            *final(self) == *old(self),
            r is Some <==> entry_num <= old(self).spec_length() && entry_num <= old(
                self,
            ).spec_capacity(),
            r matches Some(p) ==> p == (old(self).spec_capacity() + old(self).spec_tail() - 2
                * entry_num) % old(self).spec_capacity() && 0 <= p < old(self).spec_capacity(),
    {
        if entry_num <= self.length && entry_num <= self.capacity {
            let shifted: i32 = (self.capacity - entry_num) + (self.capacity - entry_num)
                + self.tail;
            let p = shifted % self.capacity;
            proof {
                let c = self.spec_capacity();
                let t = self.spec_tail();
                let n = entry_num as int;
                vstd::arithmetic::div_mod::lemma_mod_multiples_vanish(1, c + t - 2 * n, c);
                assert((2 * c + t - 2 * n) % c == (c + t - 2 * n) % c);
            }
            Some(p)
        } else {
            None
        }
    }

    /// The byte at the given offset.
    pub fn byte_at(&self, pos: i32) -> (b: u8)
        requires
            self.wf(),
            0 <= pos < self.spec_capacity(),
        ensures
            b == self.spec_bytes()[pos as int],
    {
        self.buffer[pos as usize]
    }

    /// The position `pos + 1`, wrapped modulo the capacity.
    pub open spec fn spec_next_pos(&self, pos: int) -> int {
        if pos + 1 == self.spec_capacity() {
            0
        } else {
            pos + 1
        }
    }

    /// The sample whose low byte sits at the given offset and whose high
    /// byte follows it, wrapping at the end of the storage.
    pub fn sample_at(&self, pos: i32) -> (r: i16)
        requires
            self.wf(),
            0 <= pos < self.spec_capacity(),
        ensures
            r as int == sample_spec(
                self.spec_bytes()[pos as int],
                self.spec_bytes()[self.spec_next_pos(pos as int)],
            ),
    {
        let lo = self.buffer[pos as usize];
        let next: i32 = if pos + 1 == self.capacity {
            0
        } else {
            pos + 1
        };
        let hi = self.buffer[next as usize];
        i16_from_le(lo, hi)
    }

    /// Copy `data` into the storage at the write cursor (the caller stays
    /// within the span `once_readable_len` allows) and record the write.
    pub fn feed(&mut self, data: &[u8])
        requires
            old(self).wf(),
            data@.len() <= old(self).spec_capacity() - old(self).spec_tail(),
        ensures
            final(self).wf(),
            final(self).spec_capacity() == old(self).spec_capacity(),
            final(self).spec_length() == vstd::math::min(
                old(self).spec_length() + data@.len(),
                old(self).spec_capacity(),
            ),
            final(self).spec_tail() == (old(self).spec_tail() + data@.len()) % old(
                self,
            ).spec_capacity(),
            final(self).spec_bytes().len() == old(self).spec_capacity(),
            forall|k: int|
                0 <= k < data@.len() ==> final(self).spec_bytes()[old(self).spec_tail() + k]
                    == data@[k],
            forall|k: int|
                0 <= k < old(self).spec_capacity() && !(old(self).spec_tail() <= k < old(
                    self,
                ).spec_tail() + data@.len()) ==> final(self).spec_bytes()[k] == old(
                    self,
                ).spec_bytes()[k],
    {
        let n = data.len();
        let start = self.tail as usize;
        let mut k: usize = 0;
        while k < n
            invariant
                old(self).wf(),
                k <= n,
                n == data@.len(),
                start == old(self).spec_tail(),
                n <= old(self).spec_capacity() - old(self).spec_tail(),
                self.capacity == old(self).capacity,
                self.tail == old(self).tail,
                self.length == old(self).length,
                self.buffer@.len() == old(self).spec_bytes().len(),
                forall|j: int| 0 <= j < k ==> self.buffer@[start + j] == data@[j],
                forall|j: int|
                    0 <= j < old(self).spec_capacity() && !(start <= j < start + k)
                        ==> self.buffer@[j] == old(self).spec_bytes()[j],
            decreases n - k,
        {
            self.buffer[start + k] = data[k];
            k = k + 1;
        }
        self.after_read(n as i32);
    }
}

/// The running total of a sequence of read sizes.
pub open spec fn reads_total(reads: Seq<int>) -> int
    decreases reads.len(),
{
    if reads.len() == 0 {
        0
    } else {
        reads_total(reads.drop_last()) + reads.last()
    }
}

/// The write cursor after a sequence of recorded reads, starting empty.
pub open spec fn tail_after(c: int, reads: Seq<int>) -> int
    decreases reads.len(),
{
    if reads.len() == 0 {
        0
    } else {
        (tail_after(c, reads.drop_last()) + reads.last()) % c
    }
}

/// The recorded length after a sequence of recorded reads, starting empty.
pub open spec fn length_after(c: int, reads: Seq<int>) -> int
    decreases reads.len(),
{
    if reads.len() == 0 {
        0
    } else {
        vstd::math::min(length_after(c, reads.drop_last()) + reads.last(), c)
    }
}

/// For every capacity and every sequence of read sizes summing to a total
/// `T`, the recorded length after the sequence is `min(T, capacity)` and
/// the write cursor is `T` modulo the capacity. `tail_after` and
/// `length_after` fold exactly the per-read step that
/// [`RingSignal16Buffer::after_read`] ensures.
pub proof fn lemma_ring_read_totals(c: int, reads: Seq<int>)
    requires
        c > 0,
        forall|i: int| 0 <= i < reads.len() ==> reads[i] >= 0,
    ensures
        tail_after(c, reads) == reads_total(reads) % c,
        length_after(c, reads) == vstd::math::min(reads_total(reads), c),
    decreases reads.len(),
{
    if reads.len() == 0 {
        assert(reads_total(reads) == 0);
        vstd::arithmetic::div_mod::lemma_small_mod(0nat, c as nat);
    } else {
        let prefix = reads.drop_last();
        let last = reads.last();
        assert(forall|i: int| 0 <= i < prefix.len() ==> prefix[i] >= 0);
        lemma_ring_read_totals(c, prefix);
        let t = reads_total(prefix);
        assert(last >= 0);
        assert(t >= 0) by {
            lemma_reads_total_nonneg(prefix);
        }
        // tail: (t % c + last) % c == (t + last) % c
        vstd::arithmetic::div_mod::lemma_fundamental_div_mod(t, c);
        vstd::arithmetic::div_mod::lemma_mod_multiples_vanish(t / c, t % c + last, c);
        assert((c * (t / c) + (t % c + last)) % c == (t % c + last) % c);
        assert(c * (t / c) + (t % c + last) == t + last);
        // length: min(min(t, c) + last, c) == min(t + last, c)
        assert(vstd::math::min(vstd::math::min(t, c) + last, c) == vstd::math::min(t + last, c));
    }
}

/// Read sizes are never negative, so their total is not either.
pub proof fn lemma_reads_total_nonneg(reads: Seq<int>)
    requires
        forall|i: int| 0 <= i < reads.len() ==> reads[i] >= 0,
    ensures
        reads_total(reads) >= 0,
    decreases reads.len(),
{
    if reads.len() > 0 {
        lemma_reads_total_nonneg(reads.drop_last());
    }
}

} // verus!
