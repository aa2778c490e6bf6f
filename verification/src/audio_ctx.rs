//! Scopes the encoder's context to how much audio actually arrived.
//!
//! The encoder yields 50 frames per second of audio and was trained on 30
//! seconds. Left to its default it runs over all 30 whatever the input, which
//! wastes most of the work on a short clip. Scoped too tightly it falls out of
//! what it was trained on and repeats phrases, hence the floor.

use vstd::prelude::*;

verus! {

pub const FRAMES_PER_SECOND: u64 = 50;

/// 30 s, the trained maximum.
pub const MAX_CONTEXT_FRAMES: i32 = 1500;

/// The smallest context measured to transcribe faithfully.
pub const MIN_CONTEXT_FRAMES: i32 = 256;

/// The context is rounded up to a multiple of this, which keeps the matrix
/// kernels on their fast path.
pub const CONTEXT_BLOCK: i32 = 16;

/// The frames that `samples` of audio fill, rounded up.
pub open spec fn frames_of(samples: int, sample_rate_hz: int) -> int {
    if samples == 0 {
        0
    } else {
        (samples * FRAMES_PER_SECOND + sample_rate_hz - 1) / sample_rate_hz
    }
}

/// `frames` rounded up to a whole number of blocks.
pub open spec fn blocked(frames: int) -> int {
    ((frames + CONTEXT_BLOCK - 1) / CONTEXT_BLOCK as int) * CONTEXT_BLOCK
}

pub open spec fn clamped(frames: int) -> int {
    if frames < MIN_CONTEXT_FRAMES {
        MIN_CONTEXT_FRAMES as int
    } else if frames > MAX_CONTEXT_FRAMES {
        MAX_CONTEXT_FRAMES as int
    } else {
        frames
    }
}

/// The context for `samples` of audio: enough frames to cover it, in whole
/// blocks, within the limits.
pub open spec fn context_frames(samples: int, sample_rate_hz: int) -> int {
    clamped(blocked(frames_of(samples, sample_rate_hz)))
}

/// The encoder context for `samples` of mono audio at `sample_rate_hz`.
pub fn audio_ctx_for(samples: usize, sample_rate_hz: u32) -> (frames: i32)
    requires
        sample_rate_hz > 0 || samples == 0,
    ensures
        frames == context_frames(samples as int, sample_rate_hz as int),
        MIN_CONTEXT_FRAMES <= frames <= MAX_CONTEXT_FRAMES,
        frames % CONTEXT_BLOCK == 0 || frames == MAX_CONTEXT_FRAMES,
{
    if samples == 0 {
        return MIN_CONTEXT_FRAMES;
    }
    let rate: u128 = sample_rate_hz as u128;
    let exact: u128 = ((samples as u128) * 50 + rate - 1) / rate;
    assert(exact == frames_of(samples as int, sample_rate_hz as int));
    let whole: u128 = (exact + 15) / 16 * 16;
    assert(whole == blocked(exact as int));
    if whole < 256 {
        MIN_CONTEXT_FRAMES
    } else if whole > 1500 {
        MAX_CONTEXT_FRAMES
    } else {
        whole as i32
    }
}

proof fn lemma_frames_cover(samples: int, sample_rate_hz: int)
    requires
        samples >= 0,
        sample_rate_hz > 0,
    ensures
        frames_of(samples, sample_rate_hz) >= 0,
        frames_of(samples, sample_rate_hz) * sample_rate_hz >= samples * FRAMES_PER_SECOND,
{
    let f = frames_of(samples, sample_rate_hz);
    if samples > 0 {
        let n = samples * FRAMES_PER_SECOND + sample_rate_hz - 1;
        assert(f * sample_rate_hz > n - sample_rate_hz && f >= 0) by (nonlinear_arith)
            requires
                f == n / sample_rate_hz,
                sample_rate_hz > 0,
                n >= 0,
        ;
    }
}

/// The context is never smaller than the audio, up to the trained maximum.
pub proof fn law_context_covers_the_audio(samples: int, sample_rate_hz: int)
    requires
        samples >= 0,
        sample_rate_hz > 0,
    ensures
        context_frames(samples, sample_rate_hz) == MAX_CONTEXT_FRAMES || context_frames(
            samples,
            sample_rate_hz,
        ) * sample_rate_hz >= samples * FRAMES_PER_SECOND,
{
    lemma_frames_cover(samples, sample_rate_hz);
    let f = frames_of(samples, sample_rate_hz);
    let c = context_frames(samples, sample_rate_hz);
    assert(blocked(f) >= f);
    if c != MAX_CONTEXT_FRAMES {
        assert(c >= f);
        assert(c * sample_rate_hz >= f * sample_rate_hz) by (nonlinear_arith)
            requires
                c >= f,
                sample_rate_hz > 0,
        ;
    }
}

/// The context depends on the time the audio takes, not on its rate: the same
/// stretch at `factor` times the rate gets the same context.
pub proof fn law_context_follows_time(samples: int, sample_rate_hz: int, factor: int)
    requires
        samples >= 0,
        sample_rate_hz > 0,
        factor > 0,
    ensures
        context_frames(samples * factor, sample_rate_hz * factor) == context_frames(
            samples,
            sample_rate_hz,
        ),
{
    if samples > 0 {
        let a = samples * FRAMES_PER_SECOND;
        let r = sample_rate_hz;
        let f = frames_of(samples, r);
        lemma_frames_cover(samples, r);
        assert((f - 1) * r < a <= f * r) by (nonlinear_arith)
            requires
                f == (a + r - 1) / r,
                r > 0,
                a >= 0,
        ;
        let n = samples * factor * FRAMES_PER_SECOND + r * factor - 1;
        let m = r * factor;
        assert(samples * factor > 0) by (nonlinear_arith)
            requires
                samples > 0,
                factor > 0,
        ;
        assert(m > 0) by (nonlinear_arith)
            requires
                m == r * factor,
                r > 0,
                factor > 0,
        ;
        assert(samples * factor * FRAMES_PER_SECOND == a * factor) by (nonlinear_arith)
            requires
                a == samples * FRAMES_PER_SECOND,
        ;
        assert(f * m <= n < f * m + m) by (nonlinear_arith)
            requires
                n == a * factor + m - 1,
                m == r * factor,
                (f - 1) * r < a <= f * r,
                factor > 0,
        ;
        assert(n / m == f) by (nonlinear_arith)
            requires
                f * m <= n < f * m + m,
                m > 0,
        ;
    }
}

/// More audio never gets a smaller context.
pub proof fn law_context_grows_with_the_audio(samples: int, more: int, sample_rate_hz: int)
    requires
        0 <= samples <= more,
        sample_rate_hz > 0,
    ensures
        context_frames(samples, sample_rate_hz) <= context_frames(more, sample_rate_hz),
{
    lemma_frames_cover(more, sample_rate_hz);
    if samples > 0 {
        let a = samples * FRAMES_PER_SECOND + sample_rate_hz - 1;
        let b = more * FRAMES_PER_SECOND + sample_rate_hz - 1;
        assert(a / sample_rate_hz <= b / sample_rate_hz) by (nonlinear_arith)
            requires
                a <= b,
                sample_rate_hz > 0,
        ;
    }
}

/// The context is no larger than it has to be: a block less would not cover the
/// audio, unless it is the smallest there is.
pub proof fn law_the_context_is_not_wasted(samples: int, sample_rate_hz: int)
    requires
        samples >= 0,
        sample_rate_hz > 0,
    ensures
        ({
            let c = context_frames(samples, sample_rate_hz);
            &&& 256 <= c <= 1500
            &&& c == 256 || (c - 16) * sample_rate_hz < samples * 50
        }),
{
    let f = frames_of(samples, sample_rate_hz);
    let c = context_frames(samples, sample_rate_hz);
    lemma_frames_cover(samples, sample_rate_hz);
    if c > 256 {
        assert(blocked(f) < f + 16);
        assert(c - 16 <= f - 1);
        let a = samples * 50;
        assert(samples > 0);
        assert((f - 1) * sample_rate_hz < a) by (nonlinear_arith)
            requires
                f == (a + sample_rate_hz - 1) / sample_rate_hz,
                sample_rate_hz > 0,
                a >= 0,
        ;
        assert((c - 16) * sample_rate_hz <= (f - 1) * sample_rate_hz) by (nonlinear_arith)
            requires
                c - 16 <= f - 1,
                sample_rate_hz > 0,
        ;
    }
}

} // verus!
