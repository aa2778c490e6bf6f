//! Cuts a growing audio stream into the fixed-size frames that the voice
//! activity model takes.

use vstd::prelude::*;

verus! {

/// The model's native chunk at 16 kHz (32 ms): it accepts no other.
pub const FRAME_SAMPLES: usize = 512;

/// The `[start, end)` range of the next full frame, once `available_samples`
/// reach past the `fed_samples` already handed over by a whole frame.
pub fn next_frame_range(fed_samples: usize, available_samples: usize) -> (range: Option<
    (usize, usize),
>)
    ensures
        range == frame_range(fed_samples as int, available_samples as int),
{
    match fed_samples.checked_add(FRAME_SAMPLES) {
        Some(end) => if end <= available_samples {
            Some((fed_samples, end))
        } else {
            None
        },
        None => None,
    }
}

/// The next frame starts where the last one ended, is one frame long, and
/// lies within what has arrived.
pub open spec fn frame_range(fed: int, available: int) -> Option<(usize, usize)> {
    if fed + FRAME_SAMPLES <= available {
        Some((fed as usize, (fed + FRAME_SAMPLES) as usize))
    } else {
        None
    }
}

/// Where speech began, given that it was confirmed at `confirmed_end_sample`
/// after `start_frames` frames of evidence: back by that evidence, and by
/// `lead_in_samples` for the quiet attack of the first sound, as far as the
/// start of the audio.
pub fn speech_start_estimate(
    confirmed_end_sample: usize,
    start_frames: u32,
    lead_in_samples: usize,
) -> (start: usize)
    requires
        start_frames * FRAME_SAMPLES <= usize::MAX,
    ensures
        start == speech_start(
            confirmed_end_sample as int,
            start_frames as int,
            lead_in_samples as int,
        ),
        start <= confirmed_end_sample,
{
    let evidence: usize = start_frames as usize * FRAME_SAMPLES;
    confirmed_end_sample.saturating_sub(evidence).saturating_sub(lead_in_samples)
}

pub open spec fn speech_start(confirmed: int, start_frames: int, lead_in: int) -> int {
    let start = confirmed - start_frames * FRAME_SAMPLES - lead_in;
    if start < 0 {
        0
    } else {
        start
    }
}

/// Where the frame after `k` others starts.
pub open spec fn frame_start(k: int) -> int {
    k * FRAME_SAMPLES
}

/// Fed frame by frame, a stream is walked through without gaps or overlap, and
/// what is left over is less than a frame.
pub proof fn law_frames_walk_the_stream(k: int, available: int)
    requires
        0 <= k,
        0 <= available <= usize::MAX,
    ensures
        frame_range(frame_start(k), available) is Some <==> k < available / (FRAME_SAMPLES as int),
        frame_range(frame_start(k), available) matches Some((start, end)) ==> start == frame_start(
            k,
        ) && end == frame_start(k + 1),
        0 <= available - frame_start(available / (FRAME_SAMPLES as int)) < FRAME_SAMPLES,
{
}

/// What the next frame is: the 512 samples behind those already fed, once they
/// are all there.
pub proof fn law_what_the_next_frame_is(fed: int, available: int)
    requires
        0 <= fed,
        available <= usize::MAX,
    ensures
        frame_range(fed, available) is None <==> available - fed < 512,
        frame_range(fed, available) matches Some((start, end)) ==> start == fed && end - start
            == 512 && end <= available,
{
}

/// Where speech began: the evidence and the lead-in before it was confirmed, and
/// at the start of the audio where that would be before it.
pub proof fn law_where_speech_began(confirmed: int, start_frames: int, lead_in: int)
    requires
        0 <= confirmed,
        0 <= start_frames,
        0 <= lead_in,
    ensures
        ({
            let start = speech_start(confirmed, start_frames, lead_in);
            let back = 512 * start_frames + lead_in;
            &&& back <= confirmed ==> start + back == confirmed
            &&& confirmed <= back ==> start == 0
        }),
{
}

} // verus!
