//! Log-scaled frequency bucketing of a magnitude spectrum into bar
//! heights, and the sample-window plumbing that feeds it.
//!
//! The analyzer owns the capture ring buffer and a latency offset. Each
//! tick it pulls a fixed window of samples ending a configured distance
//! before the most recent write, hands it out for frequency analysis, and
//! buckets the resulting (frequency, magnitude) bins into bars using
//! strictly increasing cutoff frequencies: each bar always takes the first
//! available bin, whatever its frequency, then keeps taking bins while
//! their frequency stays below the bar's cutoff; the bar value is the mean
//! of the taken magnitudes.
//!
//! Frequencies, cutoffs and magnitudes are plain integers here; a caller
//! chooses the scale (for example millihertz and a fixed-point magnitude).

use vstd::prelude::*;

use crate::ring::RingSignal16Buffer;
use crate::ring::sample_spec;

verus! {

/// The fixed sample rate in frames per second.
pub const FQ: u32 = 44100;

/// How many samples one analysis window holds.
pub const NUM_SAMPLES: usize = 1024;

/// Mono capture.
pub const CHANNELS: usize = 1;

/// How many bars the visualizer shows.
pub const NUM_BARS: usize = 16;

/// The capture buffer holds one second of samples.
pub const SIGNAL16_BUFFLEN: usize = 44100;

/// The cutoffs are strictly increasing in bar index.
pub open spec fn strictly_increasing(s: Seq<u64>) -> bool {
    forall|i: int, j: int| 0 <= i < j < s.len() ==> s[i] < s[j]
}

/// How many consecutive bins from `i` on have a frequency below `cutoff`.
pub open spec fn run_below(data: Seq<(u64, u64)>, cutoff: u64, i: int) -> int
    decreases data.len() - i,
{
    if i < 0 || i >= data.len() {
        0
    } else if data[i].0 < cutoff {
        1 + run_below(data, cutoff, i + 1)
    } else {
        0
    }
}

/// How many bins the bar starting at `i` consumes: the first available
/// bin regardless of its frequency, then the run below the cutoff.
pub open spec fn bar_count(data: Seq<(u64, u64)>, cutoff: u64, i: int) -> int {
    if 0 <= i < data.len() {
        1 + run_below(data, cutoff, i + 1)
    } else {
        0
    }
}

/// The index of the first bin of bar `j`.
pub open spec fn bar_start(data: Seq<(u64, u64)>, cutoffs: Seq<u64>, j: int) -> int
    decreases j,
{
    if j <= 0 {
        0
    } else {
        bar_start(data, cutoffs, j - 1) + bar_count(
            data,
            cutoffs[j - 1],
            bar_start(data, cutoffs, j - 1),
        )
    }
}

/// The sum of the magnitudes of bins `i` up to `i + k`.
pub open spec fn mag_sum(data: Seq<(u64, u64)>, i: int, k: int) -> int
    decreases k,
{
    if k <= 0 {
        0
    } else {
        mag_sum(data, i, k - 1) + data[i + k - 1].1
    }
}

/// The value of bar `j`: the integer mean of the magnitudes of its bins,
/// zero when no bin was available.
pub open spec fn bar_value(data: Seq<(u64, u64)>, cutoffs: Seq<u64>, j: int) -> int {
    let s = bar_start(data, cutoffs, j);
    let k = bar_count(data, cutoffs[j], s);
    if k > 0 {
        mag_sum(data, s, k) / k
    } else {
        0
    }
}

/// A run length is never negative.
proof fn lemma_run_below_nonneg(data: Seq<(u64, u64)>, cutoff: u64, i: int)
    ensures
        run_below(data, cutoff, i) >= 0,
    decreases data.len() - i,
{
    if 0 <= i < data.len() && data[i].0 < cutoff {
        lemma_run_below_nonneg(data, cutoff, i + 1);
    }
}

/// Every bucket receives at least one bin while bins remain: when bar `j`
/// starts before the end of the spectrum it consumes at least one bin,
/// even under a frequency resolution coarser than the bucket width,
/// because the first available bin is always included.
pub proof fn lemma_bucket_nonempty(data: Seq<(u64, u64)>, cutoffs: Seq<u64>, j: int)
    requires
        0 <= j < cutoffs.len(),
        0 <= bar_start(data, cutoffs, j) < data.len(),
    ensures
        bar_count(data, cutoffs[j], bar_start(data, cutoffs, j)) >= 1,
{
    lemma_run_below_nonneg(data, cutoffs[j], bar_start(data, cutoffs, j) + 1);
}

/// What the capture loop should do after one read attempt.
#[derive(Copy, Clone, Debug, PartialEq, Eq, Structural)]
pub enum DrainStep {
    /// The source filled the whole span: read again at once.
    Continue,
    /// The source came up short: wait this many milliseconds, then retry.
    Wait(u32),
    /// Nothing more this tick: stop draining.
    Stop,
}

/// The wait before retrying a short read: the time the source needs to
/// produce the remaining bytes at the sample rate (two bytes per frame),
/// at least one millisecond, and never past the remaining total budget.
pub open spec fn retry_wait_spec(remaining_bytes: int, budget_ms: int) -> int {
    let ms = remaining_bytes * 1000 / (2 * FQ as int);
    let ms1 = if ms < 1 {
        1
    } else {
        ms
    };
    if ms1 > budget_ms {
        budget_ms
    } else {
        ms1
    }
}

/// The drain decision after one read attempt.
pub open spec fn drain_decision_spec(
    read_len: int,
    readable_len: int,
    waited_ms: int,
    max_wait_ms: int,
) -> DrainStep {
    if read_len >= readable_len {
        DrainStep::Continue
    } else if read_len <= 0 || waited_ms >= max_wait_ms {
        DrainStep::Stop
    } else {
        DrainStep::Wait((retry_wait_spec(readable_len - read_len, max_wait_ms - waited_ms)) as u32)
    }
}

/// Decide what the capture loop does after one read attempt: drain again
/// while the source returns full-width reads; on a short read, retry
/// after a wait proportional to the remaining bytes over the sample rate,
/// bounded so the total wait never exceeds `max_wait_ms`; a read that
/// yields nothing means no new samples this tick.
pub fn drain_decision(read_len: i32, readable_len: i32, waited_ms: u32, max_wait_ms: u32) -> (r:
    DrainStep)
    requires
        0 < readable_len <= 0x2000_0000,
    ensures
        r == drain_decision_spec(
            read_len as int,
            readable_len as int,
            waited_ms as int,
            max_wait_ms as int,
        ),
{
    if read_len >= readable_len {
        DrainStep::Continue
    } else if read_len <= 0 || waited_ms >= max_wait_ms {
        DrainStep::Stop
    } else {
        let remaining: i64 = (readable_len as i64) - (read_len as i64);
        let ms64: i64 = remaining * 1000 / (2 * (FQ as i64));
        let ms1: i64 = if ms64 < 1 {
            1
        } else {
            ms64
        };
        let budget: i64 = (max_wait_ms - waited_ms) as i64;
        let w: i64 = if ms1 > budget {
            budget
        } else {
            ms1
        };
        DrainStep::Wait(w as u32)
    }
}

/// The spectrum visualizer state: the capture ring, the latency offset in
/// sample frames, and the strictly increasing bar cutoffs.
pub struct SpInfo {
    cut_off: Vec<u64>,
    signal16buff: RingSignal16Buffer,
    offset: u32,
}

impl SpInfo {
    /// The bar cutoffs.
    pub closed spec fn spec_cutoffs(&self) -> Seq<u64> {
        self.cut_off@
    }

    /// The latency offset in sample frames.
    pub closed spec fn spec_offset(&self) -> int {
        self.offset as int
    }

    /// The capture ring.
    pub closed spec fn spec_ring(&self) -> RingSignal16Buffer {
        self.signal16buff
    }

    /// Well-formedness: a well-formed one-second ring, a clamped offset,
    /// and strictly increasing cutoffs.
    pub open spec fn wf(&self) -> bool {
        &&& self.spec_ring().wf()
        &&& self.spec_ring().spec_capacity() == 2 * SIGNAL16_BUFFLEN
        &&& 0 <= self.spec_offset() <= SIGNAL16_BUFFLEN
        &&& strictly_increasing(self.spec_cutoffs())
    }

    /// Build an analyzer with the given latency offset in milliseconds
    /// (clamped to the one-second buffer) and bar cutoffs; rejected when
    /// the cutoffs are not strictly increasing.
    pub fn new(offset_msec: u32, cut_off: Vec<u64>) -> (r: Option<SpInfo>)
        ensures
            r is Some <==> strictly_increasing(cut_off@),
            r matches Some(sp) ==> sp.wf() && sp.spec_cutoffs() == cut_off@ && sp.spec_offset()
                == vstd::math::min(
                offset_msec as int * FQ as int / 1000,
                SIGNAL16_BUFFLEN as int,
            ) && sp.spec_ring().spec_tail() == 0 && sp.spec_ring().spec_length() == 0,
    {
        let n = cut_off.len();
        let mut i: usize = 1;
        while i < n
            invariant
                i >= 1,
                n == cut_off@.len(),
                forall|a: int, b: int| 0 <= a < b < i ==> cut_off@[a] < cut_off@[b],
            decreases n - i,
        {
            if cut_off[i - 1] >= cut_off[i] {
                return None;
            }
            proof {
                assert forall|a: int, b: int| 0 <= a < b < i + 1 implies cut_off@[a]
                    < cut_off@[b] by {
                    if b == i {
                        if a < i - 1 {
                            assert(cut_off@[a] < cut_off@[i - 1]);
                        }
                    }
                }
            }
            i = i + 1;
        }
        proof {
            assert((offset_msec as int) * (FQ as int) <= 0xFFFF_FFFF * 0xFFFF_FFFF) by (
            nonlinear_arith)
                requires
                    0 <= offset_msec <= 0xFFFF_FFFF,
            ;
        }
        let off64: u64 = (offset_msec as u64) * (FQ as u64) / 1000;
        let offset: u32 = if off64 > (SIGNAL16_BUFFLEN as u64) {
            SIGNAL16_BUFFLEN as u32
        } else {
            off64 as u32
        };
        Some(
            SpInfo {
                cut_off,
                signal16buff: RingSignal16Buffer::new(SIGNAL16_BUFFLEN * CHANNELS),
                offset,
            },
        )
    }

    /// How many bars the analyzer produces.
    pub fn bar_count_config(&self) -> (n: usize)
        ensures
            n == self.spec_cutoffs().len(),
    {
        self.cut_off.len()
    }

    /// How many bytes the capture ring accepts before its cursor wraps.
    pub fn once_readable_len(&mut self) -> (r: i32)
        requires
            old(self).wf(),
        ensures
            *final(self) == *old(self),
            r == old(self).spec_ring().spec_capacity() - old(self).spec_ring().spec_tail(),
            0 < r <= old(self).spec_ring().spec_capacity(),
    {
        self.signal16buff.once_readable_len()
    }

    /// Append freshly captured bytes at the ring's write cursor.
    pub fn feed(&mut self, data: &[u8])
        requires
            old(self).wf(),
            data@.len() <= old(self).spec_ring().spec_capacity() - old(
                self,
            ).spec_ring().spec_tail(),
        ensures
            final(self).wf(),
            final(self).spec_cutoffs() == old(self).spec_cutoffs(),
            final(self).spec_offset() == old(self).spec_offset(),
            final(self).spec_ring().spec_length() == vstd::math::min(
                old(self).spec_ring().spec_length() + data@.len(),
                old(self).spec_ring().spec_capacity(),
            ),
            final(self).spec_ring().spec_tail() == (old(self).spec_ring().spec_tail()
                + data@.len()) % old(self).spec_ring().spec_capacity(),
            forall|k: int|
                0 <= k < data@.len() ==> final(self).spec_ring().spec_bytes()[old(
                    self,
                ).spec_ring().spec_tail() + k] == data@[k],
    {
        self.signal16buff.feed(data);
    }

    /// Forget everything the ring recorded.
    pub fn clean(&mut self)
        requires
            old(self).wf(),
        ensures
            final(self).wf(),
            final(self).spec_cutoffs() == old(self).spec_cutoffs(),
            final(self).spec_offset() == old(self).spec_offset(),
            final(self).spec_ring().spec_tail() == 0,
            final(self).spec_ring().spec_length() == 0,
    {
        self.signal16buff.clean();
    }

    /// Where the analysis window starts: the ring offset of the block
    /// `offset` frames before the most recent write.
    pub open spec fn head_pos_spec(&self) -> int {
        (self.spec_ring().spec_capacity() + self.spec_ring().spec_tail() - 2 * (self.spec_offset()
            * CHANNELS)) % self.spec_ring().spec_capacity()
    }

    /// Sample `i` of the analysis window: the little-endian 16-bit value
    /// whose low byte sits `2 i` bytes after the window head, wrapping
    /// modulo the ring capacity.
    pub open spec fn window_sample_spec(&self, i: int) -> int {
        let cap = self.spec_ring().spec_capacity();
        let j = (self.head_pos_spec() + 2 * i) % cap;
        sample_spec(
            self.spec_ring().spec_bytes()[j],
            self.spec_ring().spec_bytes()[self.spec_ring().spec_next_pos(j)],
        )
    }

    /// Pull the most recent analysis window, `offset` frames back from the
    /// write cursor: [`NUM_SAMPLES`] decoded samples, or `None` when the
    /// ring has not yet recorded enough data — the caller then reuses its
    /// previous bars rather than substituting silence.
    pub fn extract_window(&mut self) -> (r: Option<Vec<i16>>)
        requires
            old(self).wf(),
        ensures
            *final(self) == *old(self),
            r is Some <==> old(self).spec_offset() * CHANNELS <= old(
                self,
            ).spec_ring().spec_length(),
            r matches Some(w) ==> w@.len() == NUM_SAMPLES && forall|i: int|
                0 <= i < NUM_SAMPLES ==> w@[i] as int == old(self).window_sample_spec(i),
    {
        let entry: i32 = (self.offset as i32) * (CHANNELS as i32);
        proof {
            assert(entry <= self.spec_ring().spec_capacity());
        }
        match self.signal16buff.before_pos(entry) {
            None => None,
            Some(head) => {
                let cap: i32 = self.signal16buff.capacity();
                let mut w: Vec<i16> = Vec::new();
                let mut s: usize = 0;
                while s < NUM_SAMPLES
                    invariant
                        old(self).wf(),
                        *self == *old(self),
                        cap == self.spec_ring().spec_capacity(),
                        0 <= head < cap,
                        head == self.head_pos_spec(),
                        s <= NUM_SAMPLES,
                        w@.len() == s,
                        forall|i: int|
                            0 <= i < s ==> w@[i] as int == old(self).window_sample_spec(i),
                    decreases NUM_SAMPLES - s,
                {
                    let j0: i32 = head + 2 * (s as i32);
                    let j: i32 = if j0 < cap {
                        j0
                    } else {
                        j0 - cap
                    };
                    proof {
                        if j0 < cap {
                            vstd::arithmetic::div_mod::lemma_small_mod(
                                j0 as nat,
                                cap as nat,
                            );
                        } else {
                            vstd::arithmetic::div_mod::lemma_mod_multiples_vanish(
                                1,
                                j0 - cap,
                                cap as int,
                            );
                            vstd::arithmetic::div_mod::lemma_small_mod(
                                (j0 - cap) as nat,
                                cap as nat,
                            );
                        }
                    }
                    let smp = self.signal16buff.sample_at(j);
                    w.push(smp);
                    s = s + 1;
                }
                Some(w)
            },
        }
    }

    /// Bars of all zeros, for a tick on which no window was available.
    pub fn zero_bars(&self) -> (bars: Vec<u64>)
        ensures
            bars@.len() == self.spec_cutoffs().len(),
            forall|j: int| 0 <= j < bars@.len() ==> bars@[j] == 0u64,
    {
        let n = self.cut_off.len();
        let mut bars: Vec<u64> = Vec::new();
        let mut j: usize = 0;
        while j < n
            invariant
                j <= n,
                bars@.len() == j,
                forall|t: int| 0 <= t < j ==> bars@[t] == 0u64,
            decreases n - j,
        {
            bars.push(0);
            j = j + 1;
        }
        bars
    }

    /// Bucket the spectrum bins — (frequency, magnitude) pairs in
    /// ascending frequency order, in the caller's integer scale — into one
    /// value per bar: each bar takes the first available bin regardless of
    /// its frequency, then keeps taking bins while their frequency stays
    /// below the bar's cutoff, and averages what it took.
    pub fn bucket_bars(&self, data: &Vec<(u64, u64)>) -> (bars: Vec<u64>)
        requires
            self.wf(),
            data@.len() <= 0x10000,
            forall|p: int| 0 <= p < data@.len() ==> (#[trigger] data@[p]).1 <= 0xFFFF_FFFF,
        ensures
            bars@.len() == self.spec_cutoffs().len(),
            forall|j: int|
                0 <= j < bars@.len() ==> bars@[j] as int == bar_value(
                    data@,
                    self.spec_cutoffs(),
                    j,
                ),
    {
        let nb = self.cut_off.len();
        let fnum = data.len();
        let mut bars: Vec<u64> = Vec::new();
        let mut i: usize = 0;
        let mut j: usize = 0;
        while j < nb
            invariant
                self.wf(),
                nb == self.spec_cutoffs().len(),
                fnum == data@.len(),
                data@.len() <= 0x10000,
                forall|p: int| 0 <= p < data@.len() ==> (#[trigger] data@[p]).1 <= 0xFFFF_FFFF,
                j <= nb,
                0 <= i <= fnum,
                i == bar_start(data@, self.spec_cutoffs(), j as int),
                bars@.len() == j,
                forall|t: int|
                    0 <= t < j ==> bars@[t] as int == bar_value(data@, self.spec_cutoffs(), t),
            decreases nb - j,
        {
            let cutoff = self.cut_off[j];
            let ghost s0 = i as int;
            let mut k: u64 = 0;
            let mut sum: u64 = 0;
            if i < fnum {
                sum = data[i].1;
                i = i + 1;
                k = 1;
                proof {
                    assert(mag_sum(data@, s0, 0) == 0);
                    assert(mag_sum(data@, s0, 1) == data@[s0].1);
                }
                while i < fnum && data[i].0 < cutoff
                    invariant
                        fnum == data@.len(),
                        data@.len() <= 0x10000,
                        forall|p: int|
                            0 <= p < data@.len() ==> (#[trigger] data@[p]).1 <= 0xFFFF_FFFF,
                        0 <= s0 < fnum,
                        s0 < i <= fnum,
                        k == i - s0,
                        sum == mag_sum(data@, s0, k as int),
                        sum <= k * 0xFFFF_FFFF,
                        run_below(data@, cutoff, s0 + 1) == (i - s0 - 1) + run_below(
                            data@,
                            cutoff,
                            i as int,
                        ),
                    decreases fnum - i,
                {
                    proof {
                        assert(run_below(data@, cutoff, i as int) == 1 + run_below(
                            data@,
                            cutoff,
                            i + 1,
                        ));
                        assert((k + 1) * 0xFFFF_FFFF == k * 0xFFFF_FFFF + 0xFFFF_FFFF);
                    }
                    sum = sum + data[i].1;
                    i = i + 1;
                    k = k + 1;
                }
                proof {
                    assert(run_below(data@, cutoff, i as int) == 0);
                    assert(k == bar_count(data@, cutoff, s0));
                }
            }
            proof {
                assert(k == bar_count(data@, cutoff, s0));
                assert(bar_start(data@, self.spec_cutoffs(), j + 1) == s0 + k);
            }
            let v: u64 = if k > 0 {
                sum / k
            } else {
                0
            };
            bars.push(v);
            j = j + 1;
        }
        bars
    }
}

} // verus!
