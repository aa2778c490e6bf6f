//! Rolling-window scheduling: which stretch of a recording to decode next
//! while the user is still talking, and which is left when they stop.

use std::time::Duration;

use vstd::prelude::*;

use crate::sample_time::{rounded_samples, samples_in, samples_of, span_of_millis};

verus! {

pub const WINDOW_SAMPLE_RATE_HZ: u32 = 16_000;

pub const WINDOW_MILLIS: u64 = 1200;

pub const OVERLAP_MILLIS: u64 = 200;

/// What those come to in samples.
pub const DEFAULT_WINDOW_SAMPLES: usize = 19_200;

pub const DEFAULT_STRIDE_SAMPLES: usize = 16_000;

#[derive(Debug, Clone, Copy)]
pub struct WindowPolicy {
    pub window_samples: usize,
    /// How far the start of each window lies behind the start of the one
    /// before it.
    pub stride_samples: usize,
}

impl WindowPolicy {
    /// Where the window after `decoded` full ones starts.
    pub open spec fn start_of(self, decoded: int) -> int {
        decoded * self.stride_samples
    }

    /// Where that window ends.
    pub open spec fn end_of(self, decoded: int) -> int {
        self.start_of(decoded) + self.window_samples
    }

    /// Windows move forward, and no sample falls between two of them.
    pub open spec fn is_gapless(self) -> bool {
        1 <= self.stride_samples <= self.window_samples
    }

    /// Windows of length `window` that share `overlap` with the one before;
    /// each starts at least one sample after the last.
    pub fn new(sample_rate_hz: u32, window: Duration, overlap: Duration) -> (policy: Self)
        ensures
            policy.window_samples == samples_of(sample_rate_hz, window),
            policy.stride_samples == if samples_of(sample_rate_hz, window) > samples_of(
                sample_rate_hz,
                overlap,
            ) {
                samples_of(sample_rate_hz, window) - samples_of(sample_rate_hz, overlap)
            } else {
                1
            },
            policy.window_samples >= 1 ==> policy.is_gapless(),
    {
        let window_samples: usize = samples_in(sample_rate_hz, window);
        let overlap_samples: usize = samples_in(sample_rate_hz, overlap);
        let stride_samples: usize = if window_samples > overlap_samples {
            window_samples - overlap_samples
        } else {
            1
        };
        WindowPolicy { window_samples, stride_samples }
    }

    /// Windows of 1.2 s that overlap by 0.2 s, at 16 kHz: decoding takes about
    /// 0.8 of real time, so an overlap under a fifth of the window keeps up
    /// with continuous speech.
    pub fn default_16k() -> (policy: Self)
        ensures
            policy.window_samples == DEFAULT_WINDOW_SAMPLES,
            policy.stride_samples == DEFAULT_STRIDE_SAMPLES,
            policy.is_gapless(),
            5 * (policy.window_samples - policy.stride_samples) < policy.window_samples,
    {
        let window = span_of_millis(WINDOW_MILLIS);
        let overlap = span_of_millis(OVERLAP_MILLIS);
        proof {
            lemma_default_lengths();
        }
        Self::new(WINDOW_SAMPLE_RATE_HZ, window, overlap)
    }

    /// The range of the next full window, once enough audio has arrived;
    /// `windows_decoded` full ones have been consumed already.
    pub fn next_window(&self, captured_samples: usize, windows_decoded: usize) -> (range: Option<
        (usize, usize),
    >)
        requires
            self.end_of(windows_decoded as int) <= usize::MAX,
        ensures
            range is Some == (self.end_of(windows_decoded as int) <= captured_samples),
            range matches Some((start, end)) ==> start == self.start_of(windows_decoded as int)
                && end == self.end_of(windows_decoded as int),
    {
        assert(0 <= windows_decoded * self.stride_samples) by (nonlinear_arith);
        let start: usize = windows_decoded * self.stride_samples;
        let end: usize = start + self.window_samples;
        if end <= captured_samples {
            Some((start, end))
        } else {
            None
        }
    }

    /// The trailing range at the end of speech: everything from where the
    /// next full window would have started.
    pub fn final_window(&self, captured_samples: usize, windows_decoded: usize) -> (range: Option<
        (usize, usize),
    >)
        requires
            self.start_of(windows_decoded as int) <= usize::MAX,
        ensures
            range is Some == (self.start_of(windows_decoded as int) < captured_samples),
            range matches Some((start, end)) ==> start == self.start_of(windows_decoded as int)
                && end == captured_samples,
    {
        assert(0 <= windows_decoded * self.stride_samples) by (nonlinear_arith);
        let start: usize = windows_decoded * self.stride_samples;
        if start < captured_samples {
            Some((start, captured_samples))
        } else {
            None
        }
    }
}

proof fn lemma_default_lengths()
    ensures
        rounded_samples(16_000, 1_200_000_000) == 19_200,
        rounded_samples(16_000, 200_000_000) == 3_200,
{
    assert(rounded_samples(16_000, 1_200_000_000) == 19_200) by (nonlinear_arith);
    assert(rounded_samples(16_000, 200_000_000) == 3_200) by (nonlinear_arith);
}

/// Two windows in a row overlap by the window less the stride.
pub proof fn law_windows_overlap_as_configured(policy: WindowPolicy, decoded: int)
    ensures
        policy.end_of(decoded) - policy.start_of(decoded + 1) == policy.window_samples
            - policy.stride_samples,
{
    assert((decoded + 1) * policy.stride_samples == decoded * policy.stride_samples
        + policy.stride_samples) by (nonlinear_arith);
}

/// Every captured sample is decoded: it lies in one of the full windows or in
/// the trailing one.
pub proof fn law_every_sample_is_decoded(
    policy: WindowPolicy,
    captured: int,
    decoded: int,
    sample: int,
)
    requires
        policy.is_gapless(),
        decoded >= 0,
        0 <= sample < captured,
    ensures
        policy.start_of(decoded) <= sample < captured || exists|k: int|
            0 <= k < decoded && #[trigger] policy.start_of(k) <= sample < policy.end_of(k),
    decreases decoded,
{
    if sample < policy.start_of(decoded) {
        if decoded == 0 {
            assert(policy.start_of(0) == 0);
        } else {
            law_every_sample_is_decoded(policy, captured, decoded - 1, sample);
            if policy.start_of(decoded - 1) <= sample {
                law_windows_overlap_as_configured(policy, decoded - 1);
                assert(policy.start_of(decoded - 1) <= sample < policy.end_of(decoded - 1));
            }
        }
    }
}

/// Once no further full window is ready, less than one window is left.
pub proof fn law_trailing_window_is_short(policy: WindowPolicy, captured: int, decoded: int)
    requires
        captured < policy.end_of(decoded),
    ensures
        captured - policy.start_of(decoded) < policy.window_samples,
{
}

/// Where windows lie: the first at the start, each one stride behind the one
/// before it, and all one window long.
pub proof fn law_where_windows_lie(policy: WindowPolicy, decoded: int)
    ensures
        policy.start_of(0) == 0,
        policy.start_of(decoded + 1) - policy.start_of(decoded) == policy.stride_samples,
        policy.end_of(decoded) - policy.start_of(decoded) == policy.window_samples,
        policy.is_gapless() <==> 1 <= policy.stride_samples && policy.stride_samples
            <= policy.window_samples,
{
    assert((decoded + 1) * policy.stride_samples == decoded * policy.stride_samples
        + policy.stride_samples) by (nonlinear_arith);
}

} // verus!
