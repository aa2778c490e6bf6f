//! Downmixing: which samples of an interleaved recording make up which sample
//! of a mono one. How the samples of one frame are averaged is the caller's.

use vstd::prelude::*;
use vstd::slice::slice_subrange;

use crate::slices::append_copies;

verus! {

/// The samples of frame `i`: one of each channel.
pub open spec fn frame_of<T>(interleaved: Seq<T>, channels: int, i: int) -> Seq<T> {
    interleaved.subrange(i * channels, (i + 1) * channels)
}

/// `mean` may return `sample` for `frame`.
pub open spec fn is_mean<T, F: Fn(&[T]) -> T>(mean: F, frame: Seq<T>, sample: T) -> bool {
    exists|slice: &[T]| slice@ == frame && #[trigger] call_ensures(mean, (slice,), sample)
}

/// `mono` is `interleaved` downmixed: a copy where there is one channel, or
/// none, and otherwise a mean for each whole frame.
pub open spec fn is_downmix<T, F: Fn(&[T]) -> T>(
    mean: F,
    interleaved: Seq<T>,
    channels: int,
    mono: Seq<T>,
) -> bool {
    if channels <= 1 {
        mono == interleaved
    } else {
        &&& mono.len() == interleaved.len() as int / channels
        &&& forall|i: int|
            0 <= i < mono.len() ==> is_mean(
                mean,
                frame_of(interleaved, channels, i),
                #[trigger] mono[i],
            )
    }
}

/// Downmixes interleaved samples to mono: each frame of `channels` samples
/// becomes its `mean`, and a trailing partial frame is dropped. With one
/// channel, or none, the samples are copied.
pub fn downmix_to_mono<T: Copy, F: Fn(&[T]) -> T>(
    interleaved: &[T],
    channels: u16,
    mean: F,
) -> (mono: Vec<T>)
    requires
        forall|frame: &[T]| frame@.len() == channels ==> #[trigger] call_requires(mean, (frame,)),
    ensures
        is_downmix(mean, interleaved@, channels as int, mono@),
{
    if channels <= 1 {
        let mut mono: Vec<T> = Vec::with_capacity(interleaved.len());
        append_copies(&mut mono, interleaved);
        return mono;
    }
    let width: usize = channels as usize;
    let frames: usize = interleaved.len() / width;
    let mut mono: Vec<T> = Vec::with_capacity(frames);
    let mut i: usize = 0;
    let mut at: usize = 0;
    while i < frames
        invariant
            i <= frames == interleaved@.len() as int / (channels as int),
            interleaved@.len() == interleaved.len(),
            width == channels > 1,
            at == i * channels,
            mono@.len() == i,
            forall|frame: &[T]|
                frame@.len() == channels ==> #[trigger] call_requires(mean, (frame,)),
            forall|k: int|
                0 <= k < i ==> is_mean(
                    mean,
                    frame_of(interleaved@, channels as int, k),
                    #[trigger] mono@[k],
                ),
        decreases frames - i,
    {
        assert(at + width == (i + 1) * channels && (i + 1) * channels <= interleaved@.len())
            by (nonlinear_arith)
            requires
                at == i * channels,
                width == channels,
                i < frames,
                channels > 1,
                frames == interleaved@.len() as int / (channels as int),
        ;
        let frame = slice_subrange(interleaved, at, at + width);
        let sample = mean(frame);
        proof {
            assert(frame@ =~= frame_of(interleaved@, channels as int, i as int));
            assert(is_mean(mean, frame@, sample));
        }
        mono.push(sample);
        i = i + 1;
        at = at + width;
    }
    mono
}

/// What each sample of a downmix comes from: sample `i` is the mean of one
/// sample of each channel, in their order, from where `i` whole frames end. Less
/// than a frame is left over.
pub proof fn law_a_downmix_averages_whole_frames<T, F: Fn(&[T]) -> T>(
    mean: F,
    interleaved: Seq<T>,
    channels: int,
    mono: Seq<T>,
    i: int,
)
    requires
        is_downmix(mean, interleaved, channels, mono),
        channels >= 2,
    ensures
        mono.len() * channels <= interleaved.len() < (mono.len() + 1) * channels,
        0 <= i < mono.len() ==> exists|frame: &[T]|
            {
                &&& frame@.len() == channels
                &&& forall|k: int|
                    0 <= k < channels ==> #[trigger] frame@[k] == interleaved[i * channels + k]
                &&& #[trigger] call_ensures(mean, (frame,), mono[i])
            },
{
    let n = interleaved.len() as int;
    let m = mono.len() as int;
    assert(m * channels <= n < (m + 1) * channels) by (nonlinear_arith)
        requires
            m == n / channels,
            channels >= 2,
            n >= 0,
    ;
    if 0 <= i < mono.len() {
        assert(is_mean(mean, frame_of(interleaved, channels, i), mono[i]));
        let frame = choose|slice: &[T]|
            slice@ == frame_of(interleaved, channels, i) && #[trigger] call_ensures(
                mean,
                (slice,),
                mono[i],
            );
        assert(0 <= i * channels && (i + 1) * channels == i * channels + channels && (i + 1)
            * channels <= n) by (nonlinear_arith)
            requires
                0 <= i < m,
                m * channels <= n,
                channels >= 2,
        ;
        assert(frame@.len() == channels);
        assert forall|k: int| 0 <= k < channels implies #[trigger] frame@[k] == interleaved[i
            * channels + k] by {}
    }
}

/// One channel is passed on as it is.
pub proof fn law_mono_is_left_alone<T, F: Fn(&[T]) -> T>(
    mean: F,
    interleaved: Seq<T>,
    channels: int,
    mono: Seq<T>,
)
    requires
        is_downmix(mean, interleaved, channels, mono),
        channels <= 1,
    ensures
        mono == interleaved,
{
}

} // verus!
