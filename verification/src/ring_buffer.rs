//! Always-on, in-memory audio ring buffer.
//!
//! Holds the last stretch of microphone audio at all times, so that a hotkey
//! press never waits for the device and can reach back to the moment before
//! it. No file or network access: audio stays in the process.

use std::time::Duration;

use vstd::arithmetic::div_mod::lemma_fundamental_div_mod;
use vstd::arithmetic::div_mod::lemma_fundamental_div_mod_converse;
use vstd::prelude::*;

use crate::sample_time::{
    nanos_per_second, rounded_samples, samples_in, samples_of, span_nanos, span_of_secs,
};

verus! {

pub const DEFAULT_SAMPLE_RATE_HZ: u32 = 16_000;

pub const DEFAULT_CAPACITY_SECS: u64 = 30;

/// The span of audio that [`RingBuffer::default_mono_16k`] holds.
pub fn default_capacity() -> (span: Duration)
    ensures
        span_nanos(span) == DEFAULT_CAPACITY_SECS * nanos_per_second(),
{
    span_of_secs(DEFAULT_CAPACITY_SECS)
}

/// A point in the buffer's timeline, made by [`RingBuffer::mark`] and consumed
/// by [`RingBuffer::read_since`].
#[derive(Debug, Clone, Copy, PartialEq, Eq, Structural)]
pub struct Mark(u64);

impl Mark {
    /// How many samples had been pushed when the mark was made.
    pub closed spec fn at(self) -> int {
        self.0 as int
    }
}

/// The last `n` items of `s`, or all of them where there are fewer.
pub open spec fn last_n<T>(s: Seq<T>, n: int) -> Seq<T> {
    if n <= 0 {
        Seq::empty()
    } else if n >= s.len() {
        s
    } else {
        s.subrange(s.len() - n, s.len() as int)
    }
}

/// What a buffer of `capacity` that holds `kept` holds after a push of
/// `samples`.
pub open spec fn after_push<T>(kept: Seq<T>, samples: Seq<T>, capacity: int) -> Seq<T> {
    last_n(kept + samples, capacity)
}

/// What a buffer that holds `kept` after `total` samples in all still holds of
/// those pushed since `mark`.
pub open spec fn kept_since<T>(kept: Seq<T>, total: int, mark: int) -> Seq<T> {
    last_n(kept, total - mark)
}

/// Fixed-capacity circular buffer of mono samples.
///
/// Once full, pushing overwrites the oldest samples in place: the buffer does
/// not grow.
pub struct RingBuffer<T> {
    /// The sample that was pushed after `k` others stands at `k % capacity`.
    data: Vec<T>,
    capacity: usize,
    /// Count of every sample ever pushed. A count stays unambiguous across
    /// wraparound, which a write cursor would not.
    total_written: u64,
}

impl<T> View for RingBuffer<T> {
    type V = Seq<T>;

    /// The retained samples, oldest first.
    closed spec fn view(&self) -> Seq<T> {
        Seq::new(
            self.data@.len(),
            |i: int|
                self.data@[(self.total_written - self.data@.len() + i) % (self.capacity as int)],
        )
    }
}

impl<T> RingBuffer<T> {
    pub closed spec fn wf(self) -> bool {
        &&& self.capacity > 0
        &&& self.data@.len() == if self.total_written < self.capacity {
            self.total_written as int
        } else {
            self.capacity as int
        }
    }

    pub closed spec fn cap(self) -> int {
        self.capacity as int
    }

    /// How many samples were ever pushed.
    pub closed spec fn total(self) -> int {
        self.total_written as int
    }

    /// What [`RingBuffer::read_since`] returns for a mark made after `mark`
    /// samples.
    pub open spec fn since(self, mark: int) -> Seq<T> {
        kept_since(self@, self.total(), mark)
    }

    pub proof fn lemma_wf(self)
        requires
            self.wf(),
        ensures
            0 < self.cap() <= usize::MAX,
            0 <= self.total() <= u64::MAX,
            self@.len() == if self.total() < self.cap() {
                self.total()
            } else {
                self.cap()
            },
            last_n(self@, self.cap()) == self@,
    {
    }
}

proof fn lemma_slot(total: int, capacity: int, back: int)
    requires
        0 < capacity,
        0 <= back < capacity,
    ensures
        (total - capacity + back) % capacity == if total % capacity + back < capacity {
            total % capacity + back
        } else {
            total % capacity + back - capacity
        },
{
    lemma_fundamental_div_mod(total, capacity);
    let q = total / capacity;
    let r = total % capacity;
    if r + back < capacity {
        assert(total - capacity + back == (q - 1) * capacity + (r + back)) by (nonlinear_arith)
            requires
                total == capacity * q + r,
        ;
        lemma_fundamental_div_mod_converse(total - capacity + back, capacity, q - 1, r + back);
    } else {
        assert(total - capacity + back == q * capacity + (r + back - capacity))
            by (nonlinear_arith)
            requires
                total == capacity * q + r,
        ;
        lemma_fundamental_div_mod_converse(
            total - capacity + back,
            capacity,
            q,
            r + back - capacity,
        );
    }
}

proof fn lemma_small_mod(i: int, capacity: int)
    requires
        0 <= i < capacity,
    ensures
        i % capacity == i,
{
    lemma_fundamental_div_mod_converse(i, capacity, 0, i);
}

impl<T: Copy> RingBuffer<T> {
    /// A buffer that holds exactly `capacity_samples` samples.
    pub fn new(capacity_samples: usize) -> (buffer: Self)
        requires
            capacity_samples > 0,
        ensures
            buffer.wf(),
            buffer.cap() == capacity_samples,
            buffer.total() == 0,
            buffer@ == Seq::<T>::empty(),
    {
        let buffer = RingBuffer {
            data: Vec::with_capacity(capacity_samples),
            capacity: capacity_samples,
            total_written: 0,
        };
        assert(buffer@ =~= Seq::<T>::empty());
        buffer
    }

    /// A buffer for `duration` of audio at `sample_rate_hz`, and for one
    /// sample at least.
    pub fn with_duration(sample_rate_hz: u32, duration: Duration) -> (buffer: Self)
        ensures
            buffer.wf(),
            buffer.cap() == if samples_of(sample_rate_hz, duration) == 0 {
                1
            } else {
                samples_of(sample_rate_hz, duration) as int
            },
            buffer.total() == 0,
            buffer@ == Seq::<T>::empty(),
    {
        let samples: usize = samples_in(sample_rate_hz, duration);
        if samples == 0 {
            Self::new(1)
        } else {
            Self::new(samples)
        }
    }

    /// The default buffer: 30 s at 16 kHz.
    pub fn default_mono_16k() -> (buffer: Self)
        ensures
            buffer.wf(),
            buffer.cap() == 480_000,
            buffer.total() == 0,
            buffer@ == Seq::<T>::empty(),
    {
        assert(rounded_samples(16_000, 30_000_000_000) == 480_000) by (nonlinear_arith);
        Self::with_duration(DEFAULT_SAMPLE_RATE_HZ, default_capacity())
    }

    pub fn capacity(&self) -> (capacity: usize)
        ensures
            capacity == self.cap(),
    {
        self.capacity
    }

    /// How many samples have ever been written, retained or not.
    pub fn total_written(&self) -> (total: u64)
        ensures
            total == self.total(),
    {
        self.total_written
    }

    /// How many retained samples are available to read.
    pub fn len(&self) -> (len: usize)
        ensures
            len == self@.len(),
    {
        self.data.len()
    }

    pub fn is_empty(&self) -> (empty: bool)
        requires
            self.wf(),
        ensures
            empty == (self@.len() == 0),
            empty == (self.total() == 0),
    {
        self.total_written == 0
    }

    fn push_one(&mut self, sample: T)
        requires
            old(self).wf(),
            old(self).total() < u64::MAX,
        ensures
            final(self).wf(),
            final(self).cap() == old(self).cap(),
            final(self).total() == old(self).total() + 1,
            final(self)@ == last_n(old(self)@.push(sample), old(self).cap()),
    {
        let ghost before = *self;
        let ghost capacity = self.capacity as int;
        let ghost total = self.total_written as int;
        if self.data.len() < self.capacity {
            self.data.push(sample);
            self.total_written = self.total_written + 1;
            proof {
                assert forall|i: int| 0 <= i <= total implies i < capacity && #[trigger] self@[i]
                    == before@.push(sample)[i] by {
                    lemma_small_mod(i, capacity);
                }
                assert(self@ =~= before@.push(sample));
            }
        } else {
            let slot: usize = (self.total_written % (self.capacity as u64)) as usize;
            self.data.set(slot, sample);
            self.total_written = self.total_written + 1;
            proof {
                let grown = before@.push(sample);
                assert forall|i: int| 0 <= i < capacity implies #[trigger] self@[i] == grown[i + 1]
                    by {
                    lemma_slot(total, capacity, 0);
                    if i + 1 < capacity {
                        lemma_slot(total, capacity, i + 1);
                    } else {
                        lemma_fundamental_div_mod(total, capacity);
                    }
                }
                assert(self@ =~= last_n(grown, capacity));
            }
        }
    }

    /// Appends samples from a microphone callback, overwriting the oldest
    /// audio once the buffer is full.
    pub fn push(&mut self, samples: &[T])
        requires
            old(self).wf(),
            old(self).total() + samples@.len() <= u64::MAX,
        ensures
            final(self).wf(),
            final(self).cap() == old(self).cap(),
            final(self).total() == old(self).total() + samples@.len(),
            final(self)@ == after_push(old(self)@, samples@, old(self).cap()),
    {
        let ghost kept = self@;
        let mut i: usize = 0;
        proof {
            self.lemma_wf();
            assert(kept + samples@.take(0) =~= kept);
        }
        while i < samples.len()
            invariant
                i <= samples.len(),
                self.wf(),
                kept == old(self)@,
                self.cap() == old(self).cap(),
                self.cap() > 0,
                self.total() == old(self).total() + i,
                old(self).total() + samples@.len() <= u64::MAX,
                self@ == last_n(kept + samples@.take(i as int), self.cap()),
            decreases samples.len() - i,
        {
            proof {
                let all = kept + samples@.take(i as int);
                assert(all.push(samples@[i as int]) =~= kept + samples@.take(i + 1));
                lemma_last_of_last_push(all, samples@[i as int], self.cap());
            }
            self.push_one(samples[i]);
            i = i + 1;
        }
        assert(samples@.take(i as int) =~= samples@);
    }

    /// A marker for "now" in the buffer's timeline.
    pub fn mark(&self) -> (mark: Mark)
        ensures
            mark.at() == self.total(),
    {
        Mark(self.total_written)
    }

    /// Samples pushed since `mark`, oldest first, as far as they are still
    /// retained.
    pub fn read_since(&self, mark: Mark) -> (samples: Vec<T>)
        requires
            self.wf(),
        ensures
            samples@ == self.since(mark.at()),
            samples@ == kept_since(self@, self.total(), mark.at()),
    {
        let since: u64 = if self.total_written > mark.0 {
            self.total_written - mark.0
        } else {
            0
        };
        let n: usize = if since < self.capacity as u64 {
            since as usize
        } else {
            self.capacity
        };
        self.read_last(n)
    }

    /// The most recent `n_samples` of retained audio, oldest first.
    pub fn read_last(&self, n_samples: usize) -> (samples: Vec<T>)
        requires
            self.wf(),
        ensures
            samples@ == last_n(self@, n_samples as int),
    {
        let len: usize = self.data.len();
        let n: usize = if n_samples < len {
            n_samples
        } else {
            len
        };
        let capacity: u64 = self.capacity as u64;
        let start: u64 = self.total_written - n as u64;
        let mut samples: Vec<T> = Vec::with_capacity(n);
        let mut i: usize = 0;
        while i < n
            invariant
                self.wf(),
                i <= n <= len == self.data@.len(),
                capacity == self.capacity,
                start == self.total_written - n,
                samples@ =~= self@.subrange(len - n, len - n + i),
            decreases n - i,
        {
            proof {
                assert(self@[len - n + i] == self.data@[(start + i) % (capacity as int)]);
                if self.total_written < self.capacity {
                    lemma_small_mod(start + i, capacity as int);
                } else {
                    lemma_slot(self.total(), capacity as int, len - n + i);
                }
            }
            let slot: usize = ((start + i as u64) % capacity) as usize;
            samples.push(self.data[slot]);
            i = i + 1;
        }
        samples
    }

    /// The most recent `duration` of retained audio at `sample_rate_hz`.
    pub fn read_last_duration(&self, sample_rate_hz: u32, duration: Duration) -> (samples: Vec<T>)
        requires
            self.wf(),
        ensures
            samples@ == last_n(self@, samples_of(sample_rate_hz, duration) as int),
    {
        let n: usize = samples_in(sample_rate_hz, duration);
        self.read_last(n)
    }
}

proof fn lemma_last_of_last_push<T>(s: Seq<T>, x: T, n: int)
    requires
        n > 0,
    ensures
        last_n(last_n(s, n).push(x), n) == last_n(s.push(x), n),
{
    assert(last_n(last_n(s, n).push(x), n) =~= last_n(s.push(x), n));
}

/// However the microphone cuts the audio into callbacks, the buffer ends up
/// the same: two pushes are one push of both.
pub proof fn law_pushes_add_up<T>(kept: Seq<T>, first: Seq<T>, second: Seq<T>, capacity: int)
    requires
        capacity > 0,
    ensures
        after_push(after_push(kept, first, capacity), second, capacity) == after_push(
            kept,
            first + second,
            capacity,
        ),
{
    assert(after_push(after_push(kept, first, capacity), second, capacity) =~= after_push(
        kept,
        first + second,
        capacity,
    ));
}

/// Reading since a mark gives back what was pushed after it, oldest first, and
/// nothing else; of a session longer than the buffer, the end.
pub proof fn law_a_session_reads_back<T>(
    kept: Seq<T>,
    total: int,
    session: Seq<T>,
    capacity: int,
)
    requires
        capacity > 0,
    ensures
        kept_since(after_push(kept, session, capacity), total + session.len(), total) == last_n(
            session,
            capacity,
        ),
        session.len() <= capacity ==> kept_since(
            after_push(kept, session, capacity),
            total + session.len(),
            total,
        ) == session,
{
    assert(kept_since(after_push(kept, session, capacity), total + session.len(), total)
        =~= last_n(session, capacity));
    assert(session.len() <= capacity ==> last_n(session, capacity) =~= session);
}

/// Nothing older than the last `capacity` samples is retained, and nothing
/// newer is lost.
pub proof fn law_the_newest_samples_are_retained<T>(kept: Seq<T>, samples: Seq<T>, capacity: int)
    requires
        0 <= kept.len() <= capacity,
        0 < capacity,
    ensures
        after_push(kept, samples, capacity).len() <= capacity,
        samples.len() >= capacity ==> after_push(kept, samples, capacity) == samples.subrange(
            samples.len() - capacity,
            samples.len() as int,
        ),
        kept.len() + samples.len() <= capacity ==> after_push(kept, samples, capacity) == kept
            + samples,
{
    if samples.len() >= capacity {
        assert(after_push(kept, samples, capacity) =~= samples.subrange(
            samples.len() - capacity,
            samples.len() as int,
        ));
    }
}

/// Which samples are the last `n`: as many as there are up to `n`, and each as
/// far from the end as it was.
pub proof fn law_the_last_samples<T>(s: Seq<T>, n: int)
    ensures
        ({
            let out = last_n(s, n);
            &&& out.len() == if n < 0 {
                0
            } else if n < s.len() {
                n
            } else {
                s.len() as int
            }
            &&& forall|i: int|
                0 <= i < out.len() ==> #[trigger] out[i] == s[s.len() - out.len() + i]
        }),
{
}

/// What a push leaves: of everything that was held and pushed, in order, the
/// end, as much of it as fits.
pub proof fn law_what_a_push_leaves<T>(kept: Seq<T>, samples: Seq<T>, capacity: int)
    requires
        0 < capacity,
    ensures
        ({
            let out = after_push(kept, samples, capacity);
            let all = kept.len() + samples.len();
            &&& out.len() == if all < capacity {
                all as int
            } else {
                capacity
            }
            &&& forall|i: int|
                0 <= i < out.len() ==> #[trigger] out[i] == {
                    let place = all - out.len() + i;
                    if place < kept.len() {
                        kept[place]
                    } else {
                        samples[place - kept.len()]
                    }
                }
        }),
{
}

/// What reading since a mark gives: the samples that came after it, as many of
/// them as are held, and none of a mark that is still to come.
pub proof fn law_what_is_read_since_a_mark<T>(kept: Seq<T>, total: int, mark: int)
    ensures
        ({
            let out = kept_since(kept, total, mark);
            let since = total - mark;
            &&& out.len() == if since < 0 {
                0
            } else if since < kept.len() {
                since
            } else {
                kept.len() as int
            }
            &&& forall|i: int|
                0 <= i < out.len() ==> #[trigger] out[i] == kept[kept.len() - out.len() + i]
        }),
{
}

} // verus!
