//! What becomes of one callback of the microphone.

use vstd::prelude::*;

use crate::convert::{downmix_to_mono, is_downmix};
use crate::resample::{is_resampled, linear_resample, resampled_len, TARGET_SAMPLE_RATE_HZ};
use crate::ring_buffer::{after_push, RingBuffer};

verus! {

proof fn lemma_resampled_len_grows(len: int, more: int, from_hz: int, to_hz: int)
    requires
        0 <= len <= more,
        0 < from_hz,
        0 <= to_hz,
    ensures
        0 <= resampled_len(len, from_hz, to_hz) <= resampled_len(more, from_hz, to_hz),
{
    assert(0 <= len * to_hz <= more * to_hz) by (nonlinear_arith)
        requires
            0 <= len <= more,
            0 <= to_hz,
    ;
    let a = 2 * (len * to_hz) + from_hz;
    let b = 2 * (more * to_hz) + from_hz;
    assert(0 <= a / (2 * from_hz) <= b / (2 * from_hz)) by (nonlinear_arith)
        requires
            0 <= a <= b,
            0 < from_hz,
    ;
}

proof fn lemma_same_rate_same_len(len: int)
    ensures
        resampled_len(len, 16_000, 16_000) == len,
{
    assert((2 * (len * 16_000) + 16_000) / 32_000 == len);
}

/// Takes in interleaved samples from the device, whatever its rate and number
/// of channels: they are downmixed, resampled and pushed, so that nothing
/// behind the buffer needs to know what hardware is attached.
pub fn capture_chunk<T: Copy, M: Fn(&[T]) -> T, B: Fn(T, T, u64, u32) -> T>(
    ring: &mut RingBuffer<T>,
    data: &[T],
    device_sample_rate_hz: u32,
    device_channels: u16,
    mean: M,
    blend: B,
)
    requires
        old(ring).wf(),
        device_sample_rate_hz > 0,
        resampled_len(
            data@.len() as int,
            device_sample_rate_hz as int,
            TARGET_SAMPLE_RATE_HZ as int,
        ) <= usize::MAX,
        old(ring).total() + resampled_len(
            data@.len() as int,
            device_sample_rate_hz as int,
            TARGET_SAMPLE_RATE_HZ as int,
        ) <= u64::MAX,
        forall|frame: &[T]|
            frame@.len() == device_channels ==> #[trigger] call_requires(mean, (frame,)),
        forall|a: T, b: T, numerator: u64, denominator: u32|
            denominator > 0 ==> #[trigger] call_requires(blend, (a, b, numerator, denominator)),
    ensures
        final(ring).wf(),
        final(ring).cap() == old(ring).cap(),
        exists|mono: Seq<T>, resampled: Seq<T>|
            {
                &&& #[trigger] is_downmix(mean, data@, device_channels as int, mono)
                &&& #[trigger] is_resampled(
                    blend,
                    mono,
                    device_sample_rate_hz,
                    TARGET_SAMPLE_RATE_HZ,
                    resampled,
                )
                &&& final(ring)@ == after_push(old(ring)@, resampled, old(ring).cap())
                &&& final(ring).total() == old(ring).total() + resampled.len()
            },
{
    let mono = downmix_to_mono(data, device_channels, mean);
    proof {
        if device_channels > 1 {
            assert(mono@.len() <= data@.len()) by (nonlinear_arith)
                requires
                    mono@.len() == data@.len() as int / (device_channels as int),
                    device_channels > 1,
            ;
        }
        lemma_resampled_len_grows(
            mono@.len() as int,
            data@.len() as int,
            device_sample_rate_hz as int,
            16_000,
        );
        if device_sample_rate_hz == 16_000 {
            lemma_same_rate_same_len(mono@.len() as int);
        }
    }
    let resampled = linear_resample(
        mono.as_slice(),
        device_sample_rate_hz,
        TARGET_SAMPLE_RATE_HZ,
        blend,
    );
    ring.push(resampled.as_slice());
}

} // verus!
