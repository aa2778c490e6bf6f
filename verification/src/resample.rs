//! Linear resampling: how long the result is, and between which two samples,
//! and how far, each of its samples lies. The interpolation itself is the
//! caller's.

use vstd::prelude::*;

use crate::ring_buffer::DEFAULT_SAMPLE_RATE_HZ;
use crate::slices::append_copies;

verus! {

/// Everything behind the microphone works at this rate.
pub const TARGET_SAMPLE_RATE_HZ: u32 = DEFAULT_SAMPLE_RATE_HZ;

/// How many samples `len` samples at `from_hz` are at `to_hz`, to the nearest
/// sample, with halves rounded up.
pub open spec fn resampled_len(len: int, from_hz: int, to_hz: int) -> int {
    (2 * (len * to_hz) + from_hz) / (2 * from_hz)
}

/// The input sample at or before output sample `i`, as far as there is one.
pub open spec fn source_index(len: int, from_hz: int, to_hz: int, i: int) -> int {
    let index = (i * from_hz) / to_hz;
    if index < len {
        index
    } else {
        len - 1
    }
}

/// The input sample after that one, as far as there is one.
pub open spec fn next_index(len: int, index: int) -> int {
    if index + 1 < len {
        index + 1
    } else {
        len - 1
    }
}

/// How far output sample `i` lies behind input sample `index`, in parts of
/// `to_hz`.
pub open spec fn source_offset(from_hz: int, to_hz: int, index: int, i: int) -> int {
    i * from_hz - index * to_hz
}

proof fn lemma_source(len: int, from_hz: int, to_hz: int, i: int)
    requires
        0 < len,
        0 < from_hz <= u32::MAX,
        0 < to_hz <= u32::MAX,
        0 <= i < resampled_len(len, from_hz, to_hz),
    ensures
        0 <= source_index(len, from_hz, to_hz, i) < len,
        0 <= source_offset(from_hz, to_hz, source_index(len, from_hz, to_hz, i), i) <= u32::MAX
            + u32::MAX,
{
    let n = 2 * (len * to_hz) + from_hz;
    let index = (i * from_hz) / to_hz;
    assert(0 <= len * to_hz) by (nonlinear_arith)
        requires
            0 < len,
            0 < to_hz,
    ;
    assert((i + 1) * (2 * from_hz) <= n) by (nonlinear_arith)
        requires
            i + 1 <= n / (2 * from_hz),
            0 < from_hz,
            0 <= n,
    ;
    assert((i + 1) * (2 * from_hz) == 2 * (i * from_hz) + 2 * from_hz) by (nonlinear_arith);
    assert(2 * (i * from_hz) < 2 * (len * to_hz));
    assert(0 <= i * from_hz) by (nonlinear_arith)
        requires
            0 <= i,
            0 < from_hz,
    ;
    assert(0 <= index && index * to_hz <= i * from_hz < index * to_hz + to_hz)
        by (nonlinear_arith)
        requires
            index == (i * from_hz) / to_hz,
            0 < to_hz,
            0 <= i * from_hz,
    ;
    if index >= len {
        assert(index * to_hz >= len * to_hz) by (nonlinear_arith)
            requires
                index >= len,
                to_hz > 0,
        ;
    }
}

/// `out` is `input` resampled: a copy where the rates match or there is no
/// input, and otherwise a blend of two neighbouring input samples for each
/// output sample.
pub open spec fn is_resampled<T, F: Fn(T, T, u64, u32) -> T>(
    blend: F,
    input: Seq<T>,
    from_hz: u32,
    to_hz: u32,
    out: Seq<T>,
) -> bool {
    if from_hz == to_hz || input.len() == 0 {
        out == input
    } else {
        &&& out.len() == resampled_len(input.len() as int, from_hz as int, to_hz as int)
        &&& forall|i: int|
            0 <= i < out.len() ==> is_blend(blend, input, from_hz, to_hz, i, #[trigger] out[i])
    }
}

/// `blend` may return `sample` for output sample `i`.
pub open spec fn is_blend<T, F: Fn(T, T, u64, u32) -> T>(
    blend: F,
    input: Seq<T>,
    from_hz: u32,
    to_hz: u32,
    i: int,
    sample: T,
) -> bool {
    let index = source_index(input.len() as int, from_hz as int, to_hz as int, i);
    call_ensures(
        blend,
        (
            input[index],
            input[next_index(input.len() as int, index)],
            source_offset(from_hz as int, to_hz as int, index, i) as u64,
            to_hz,
        ),
        sample,
    )
}

/// Resamples `input` from `from_hz` to `to_hz`. Each output sample is the
/// `blend` of two neighbouring input samples, with how far it lies between
/// them as a fraction. Past the last input sample the last one stands on both
/// sides: no sample is made up. Where the rates match the input is copied.
pub fn linear_resample<T: Copy, F: Fn(T, T, u64, u32) -> T>(
    input: &[T],
    from_hz: u32,
    to_hz: u32,
    blend: F,
) -> (out: Vec<T>)
    requires
        from_hz > 0 || to_hz == 0 || input@.len() == 0,
        from_hz > 0 ==> resampled_len(input@.len() as int, from_hz as int, to_hz as int)
            <= usize::MAX,
        forall|a: T, b: T, numerator: u64, denominator: u32|
            denominator > 0 ==> #[trigger] call_requires(blend, (a, b, numerator, denominator)),
    ensures
        is_resampled(blend, input@, from_hz, to_hz, out@),
{
    if from_hz == to_hz || input.len() == 0 {
        let mut out: Vec<T> = Vec::with_capacity(input.len());
        append_copies(&mut out, input);
        return out;
    }
    let len: usize = input.len();
    let from: u128 = from_hz as u128;
    let to: u128 = to_hz as u128;
    assert(0 <= len * to <= 0xffff_ffff_ffff_ffff * 0xffff_ffff) by (nonlinear_arith)
        requires
            0 <= len <= 0xffff_ffff_ffff_ffff,
            0 <= to <= 0xffff_ffff,
    ;
    let out_len: usize = ((2 * (len as u128 * to) + from) / (2 * from)) as usize;
    if to_hz == 0 {
        assert(resampled_len(len as int, from_hz as int, 0) == 0) by (nonlinear_arith)
            requires
                from_hz > 0,
        ;
        return Vec::new();
    }
    let mut out: Vec<T> = Vec::with_capacity(out_len);
    let mut i: usize = 0;
    while i < out_len
        invariant
            i <= out_len == resampled_len(len as int, from_hz as int, to_hz as int),
            0 < len == input@.len(),
            from == from_hz,
            to == to_hz,
            from > 0,
            to > 0,
            out@.len() == i,
            forall|a: T, b: T, numerator: u64, denominator: u32|
                denominator > 0 ==> #[trigger] call_requires(
                    blend,
                    (a, b, numerator, denominator),
                ),
            forall|k: int|
                0 <= k < i ==> is_blend(blend, input@, from_hz, to_hz, k, #[trigger] out@[k]),
        decreases out_len - i,
    {
        proof {
            lemma_source(len as int, from_hz as int, to_hz as int, i as int);
        }
        assert(0 <= i * from <= 0xffff_ffff_ffff_ffff * 0xffff_ffff) by (nonlinear_arith)
            requires
                0 <= i <= 0xffff_ffff_ffff_ffff,
                0 <= from <= 0xffff_ffff,
        ;
        let position: u128 = i as u128 * from;
        let floor: u128 = position / to;
        let index: usize = if floor < len as u128 {
            floor as usize
        } else {
            len - 1
        };
        assert(0 <= index * to <= 0xffff_ffff_ffff_ffff * 0xffff_ffff) by (nonlinear_arith)
            requires
                0 <= index <= 0xffff_ffff_ffff_ffff,
                0 <= to <= 0xffff_ffff,
        ;
        let offset: u64 = (position - index as u128 * to) as u64;
        let next: usize = if index + 1 < len {
            index + 1
        } else {
            len - 1
        };
        out.push(blend(input[index], input[next], offset, to_hz));
        i = i + 1;
    }
    out
}

/// How long resampled audio is: as long as the audio takes at the new rate, to
/// within half a sample, with halves rounded up.
pub proof fn law_resampled_audio_takes_as_long(len: int, from_hz: int, to_hz: int)
    requires
        0 <= len,
        0 < from_hz,
        0 <= to_hz,
    ensures
        ({
            let n = resampled_len(len, from_hz, to_hz);
            &&& 0 <= n
            &&& 2 * (n * from_hz) - from_hz <= 2 * (len * to_hz)
            &&& 2 * (len * to_hz) < 2 * (n * from_hz) + from_hz
        }),
{
    let a = 2 * (len * to_hz) + from_hz;
    let d = 2 * from_hz;
    let n = resampled_len(len, from_hz, to_hz);
    assert(0 <= len * to_hz) by (nonlinear_arith)
        requires
            0 <= len,
            0 <= to_hz,
    ;
    assert(0 <= n && n * d <= a < n * d + d) by (nonlinear_arith)
        requires
            n == a / d,
            0 < d,
            0 <= a,
    ;
    assert(n * d == 2 * (n * from_hz)) by (nonlinear_arith)
        requires
            d == 2 * from_hz,
    ;
}

/// Where each sample of resampled audio comes from, up or down: sample `i` lies
/// `i * from_hz / to_hz` samples into the input, and is a blend of the input
/// samples on either side of there, with its distance from the first of them in
/// parts of `to_hz`. Past the last input sample that one stands on both sides.
pub proof fn law_each_sample_lies_between_its_neighbours<T, F: Fn(T, T, u64, u32) -> T>(
    blend: F,
    input: Seq<T>,
    from_hz: u32,
    to_hz: u32,
    out: Seq<T>,
    i: int,
) -> (at: (int, int, u64))
    requires
        is_resampled(blend, input, from_hz, to_hz, out),
        from_hz != to_hz,
        0 < from_hz,
        0 < to_hz,
        0 < input.len(),
        0 <= i < out.len(),
    ensures
        ({
            let (before, after, offset) = at;
            &&& 0 <= before < input.len()
            &&& before * to_hz <= i * from_hz
            &&& i * from_hz < (before + 1) * to_hz || before == input.len() - 1
            &&& after == before + 1 || (before == after && before == input.len() - 1)
            &&& after < input.len()
            &&& before * to_hz + offset == i * from_hz
            &&& call_ensures(blend, (input[before], input[after], offset, to_hz), out[i])
        }),
{
    let len = input.len() as int;
    let from = from_hz as int;
    let to = to_hz as int;
    lemma_source(len, from, to, i);
    let before = source_index(len, from, to, i);
    let after = next_index(len, before);
    let offset = source_offset(from, to, before, i);
    assert(is_blend(blend, input, from_hz, to_hz, i, out[i]));
    let floor = (i * from) / to;
    assert(0 <= i * from) by (nonlinear_arith)
        requires
            0 <= i,
            0 < from,
    ;
    assert(floor * to <= i * from < floor * to + to) by (nonlinear_arith)
        requires
            floor == (i * from) / to,
            0 < to,
            0 <= i * from,
    ;
    assert((floor + 1) * to == floor * to + to) by (nonlinear_arith);
    assert(before * to <= floor * to) by (nonlinear_arith)
        requires
            before <= floor,
            0 < to,
    ;
    (before, after, offset as u64)
}

/// Audio of the same rate, and no audio, is passed on as it is.
pub proof fn law_the_same_rate_changes_nothing<T, F: Fn(T, T, u64, u32) -> T>(
    blend: F,
    input: Seq<T>,
    from_hz: u32,
    to_hz: u32,
    out: Seq<T>,
)
    requires
        is_resampled(blend, input, from_hz, to_hz, out),
        0 < from_hz,
    ensures
        from_hz == to_hz ==> out == input,
        input.len() == 0 ==> out.len() == 0,
        from_hz != to_hz && input.len() > 0 ==> {
            let lasts = input.len() * to_hz;
            2 * (out.len() * from_hz) - from_hz <= 2 * lasts < 2 * (out.len() * from_hz) + from_hz
        },
{
    law_resampled_audio_takes_as_long(input.len() as int, from_hz as int, to_hz as int);
}

} // verus!
