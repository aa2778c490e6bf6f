//! How many audio samples a span of time holds.

use std::time::Duration;

use vstd::prelude::*;

verus! {

/// The length of a span of time in nanoseconds.
pub uninterp spec fn span_nanos(span: Duration) -> nat;

pub open spec fn nanos_per_second() -> int {
    1_000_000_000
}

/// Calls `Duration::as_nanos`: the total number of nanoseconds of `span`,
/// which holds whole seconds in 64 bits and less than a second beside them.
#[verifier::external_body]
fn nanos_of(span: Duration) -> (nanos: u128)
    ensures
        nanos == span_nanos(span),
        nanos < 0x1_0000_0000_0000_0000 * 1_000_000_000,
{
    span.as_nanos()
}

/// Calls `Duration::from_millis`: a span of exactly `millis` milliseconds.
#[verifier::external_body]
pub(crate) fn span_of_millis(millis: u64) -> (span: Duration)
    ensures
        span_nanos(span) == millis * 1_000_000,
{
    Duration::from_millis(millis)
}

/// Calls `Duration::from_secs`: a span of exactly `secs` seconds.
#[verifier::external_body]
pub(crate) fn span_of_secs(secs: u64) -> (span: Duration)
    ensures
        span_nanos(span) == secs * 1_000_000_000,
{
    Duration::from_secs(secs)
}

/// How many samples `nanos` nanoseconds hold at `sample_rate_hz`, to the
/// nearest sample, with halves rounded up.
pub open spec fn rounded_samples(sample_rate_hz: int, nanos: int) -> int {
    (2 * (sample_rate_hz * nanos) + nanos_per_second()) / (2 * nanos_per_second())
}

/// The number of samples in `span`, as far as a `usize` can count them.
pub open spec fn samples_of(sample_rate_hz: u32, span: Duration) -> usize {
    let samples = rounded_samples(sample_rate_hz as int, span_nanos(span) as int);
    if samples <= usize::MAX {
        samples as usize
    } else {
        usize::MAX
    }
}

/// The number of samples in `span` at `sample_rate_hz`.
pub fn samples_in(sample_rate_hz: u32, span: Duration) -> (samples: usize)
    ensures
        samples == samples_of(sample_rate_hz, span),
{
    let nanos: u128 = nanos_of(span);
    let rate: u128 = sample_rate_hz as u128;
    assert(0 <= rate * nanos < 0x1_0000_0000 * (0x1_0000_0000_0000_0000 * 1_000_000_000))
        by (nonlinear_arith)
        requires
            0 <= rate < 0x1_0000_0000,
            0 <= nanos < 0x1_0000_0000_0000_0000 * 1_000_000_000,
    ;
    let samples: u128 = (2 * (rate * nanos) + 1_000_000_000) / 2_000_000_000;
    let limit: u128 = usize::MAX as u128;
    if samples <= limit {
        samples as usize
    } else {
        usize::MAX
    }
}

/// How many samples a span holds: as many as fit its time at the rate, to within
/// half a sample, with halves rounded up.
pub proof fn law_samples_take_as_long(sample_rate_hz: int, nanos: int)
    requires
        0 <= sample_rate_hz,
        0 <= nanos,
    ensures
        ({
            let n = rounded_samples(sample_rate_hz, nanos);
            &&& 0 <= n
            &&& 2_000_000_000 * n - 1_000_000_000 <= 2 * (sample_rate_hz * nanos)
            &&& 2 * (sample_rate_hz * nanos) < 2_000_000_000 * n + 1_000_000_000
        }),
{
    assert(0 <= sample_rate_hz * nanos) by (nonlinear_arith)
        requires
            0 <= sample_rate_hz,
            0 <= nanos,
    ;
    let a = 2 * (sample_rate_hz * nanos) + 1_000_000_000;
    assert(rounded_samples(sample_rate_hz, nanos) == a / 2_000_000_000);
}

/// The same of a span, up to what can be counted.
pub proof fn law_samples_of_a_span(sample_rate_hz: u32, span: Duration)
    ensures
        ({
            let n = rounded_samples(sample_rate_hz as int, span_nanos(span) as int);
            samples_of(sample_rate_hz, span) == if n <= usize::MAX {
                n
            } else {
                usize::MAX as int
            }
        }),
{
    law_samples_take_as_long(sample_rate_hz as int, span_nanos(span) as int);
}

} // verus!
