//! What the voice activity model carries from one frame to the next.
//!
//! The model takes a recurrent state, and the end of the frame before, put in
//! front of each new frame. Without that context it accepts the input and
//! returns a meaningless number.

use vstd::prelude::*;
use vstd::slice::slice_subrange;

use crate::framing::FRAME_SAMPLES;
use crate::slices::append_copies;

verus! {

/// The model's native sample rate.
pub const SAMPLE_RATE_HZ: i64 = 16_000;

/// The recurrent state is a tensor of shape `[STATE_LAYERS, 1, STATE_DIM]`.
pub const STATE_LAYERS: usize = 2;

pub const STATE_DIM: usize = 128;

pub const STATE_LEN: usize = 256;

/// Samples of the previous frame that are put in front of each frame.
pub const CONTEXT_SAMPLES: usize = 64;

pub const INPUT_SAMPLES: usize = 576;

#[derive(Debug, Clone, Copy, PartialEq, Eq, Structural)]
pub enum VadError {
    /// The model could not be run.
    ModelFailed,
    WrongFrameSize { expected: usize, actual: usize },
    EmptyOutput,
}

/// The memory of a running model: its state and the audio context, which
/// persist between frames of one session.
pub struct SileroVad<T> {
    zero: T,
    state: Vec<T>,
    context: Vec<T>,
}

/// `n` times `x`.
pub open spec fn filled<T>(n: int, x: T) -> Seq<T> {
    Seq::new(n as nat, |i: int| x)
}

fn filled_with<T: Copy>(n: usize, x: T) -> (out: Vec<T>)
    ensures
        out@ == filled(n as int, x),
{
    let mut out: Vec<T> = Vec::with_capacity(n);
    let mut i: usize = 0;
    while i < n
        invariant
            i <= n,
            out@ =~= filled(i as int, x),
        decreases n - i,
    {
        out.push(x);
        i = i + 1;
    }
    out
}

impl<T> SileroVad<T> {
    pub closed spec fn wf(self) -> bool {
        self.state@.len() == STATE_LEN && self.context@.len() == CONTEXT_SAMPLES
    }

    /// The value of silence.
    pub closed spec fn silence(self) -> T {
        self.zero
    }

    pub closed spec fn state_values(self) -> Seq<T> {
        self.state@
    }

    pub closed spec fn context_samples(self) -> Seq<T> {
        self.context@
    }
}

impl<T: Copy> SileroVad<T> {
    /// A model that has heard nothing; `zero` is the value of silence.
    pub fn new(zero: T) -> (vad: Self)
        ensures
            vad.wf(),
            vad.silence() == zero,
            vad.state_values() == filled(STATE_LEN as int, zero),
            vad.context_samples() == filled(CONTEXT_SAMPLES as int, zero),
    {
        SileroVad {
            zero,
            state: filled_with(STATE_LEN, zero),
            context: filled_with(CONTEXT_SAMPLES, zero),
        }
    }

    /// Zeroes the recurrent state and the audio context, so that one
    /// utterance does not bleed into the next.
    pub fn reset_state(&mut self)
        ensures
            final(self).wf(),
            final(self).silence() == old(self).silence(),
            final(self).state_values() == filled(STATE_LEN as int, old(self).silence()),
            final(self).context_samples() == filled(CONTEXT_SAMPLES as int, old(self).silence()),
    {
        self.state = filled_with(STATE_LEN, self.zero);
        self.context = filled_with(CONTEXT_SAMPLES, self.zero);
    }

    /// The model's input for `frame`: the context, then the frame.
    pub fn frame_input(&self, frame: &[T]) -> (input: Result<Vec<T>, VadError>)
        requires
            self.wf(),
        ensures
            input is Ok == (frame@.len() == FRAME_SAMPLES),
            input matches Ok(samples) ==> samples@ == self.context_samples() + frame@
                && samples@.len() == INPUT_SAMPLES,
            input matches Err(error) ==> error == (VadError::WrongFrameSize {
                expected: FRAME_SAMPLES,
                actual: frame@.len() as usize,
            }),
    {
        if frame.len() != FRAME_SAMPLES {
            return Err(VadError::WrongFrameSize { expected: FRAME_SAMPLES, actual: frame.len() });
        }
        let mut input: Vec<T> = Vec::with_capacity(INPUT_SAMPLES);
        append_copies(&mut input, self.context.as_slice());
        append_copies(&mut input, frame);
        Ok(input)
    }

    /// The state to run the model with.
    pub fn state(&self) -> (state: &Vec<T>)
        ensures
            state@ == self.state_values(),
    {
        &self.state
    }

    /// Takes in what the model returned for `input`: the probability is the
    /// first of `outputs`, the state is replaced, and the end of the input
    /// becomes the next context. Where there is no probability nothing
    /// changes.
    pub fn take_output(&mut self, input: &[T], outputs: &[T], next_state: &[T]) -> (probability:
        Result<T, VadError>)
        requires
            old(self).wf(),
            input@.len() == INPUT_SAMPLES,
            next_state@.len() == STATE_LEN,
        ensures
            final(self).wf(),
            final(self).silence() == old(self).silence(),
            probability is Ok == (outputs@.len() > 0),
            probability matches Ok(p) ==> p == outputs@[0] && final(self).state_values()
                == next_state@ && final(self).context_samples() == input@.subrange(
                INPUT_SAMPLES - CONTEXT_SAMPLES,
                INPUT_SAMPLES as int,
            ),
            probability matches Err(error) ==> error == VadError::EmptyOutput && *final(self)
                == *old(self),
    {
        if outputs.len() == 0 {
            return Err(VadError::EmptyOutput);
        }
        let mut state: Vec<T> = Vec::with_capacity(STATE_LEN);
        append_copies(&mut state, next_state);
        let mut context: Vec<T> = Vec::with_capacity(CONTEXT_SAMPLES);
        append_copies(
            &mut context,
            slice_subrange(input, INPUT_SAMPLES - CONTEXT_SAMPLES, INPUT_SAMPLES),
        );
        self.state = state;
        self.context = context;
        Ok(outputs[0])
    }
}

/// `answer` is what `run` may return for `input` and `state`.
pub open spec fn may_answer<T, F: FnOnce(&[T], &[T]) -> Option<(Vec<T>, Vec<T>)>>(
    run: F,
    input: Seq<T>,
    state: Seq<T>,
    answer: Option<(Vec<T>, Vec<T>)>,
) -> bool {
    exists|samples: &[T], values: &[T]|
        samples@ == input && values@ == state && #[trigger] call_ensures(
            run,
            (samples, values),
            answer,
        )
}

impl<T: Copy> SileroVad<T> {
    /// The probability that `frame` is speech. `run` runs the model on an input
    /// and a state, and returns its outputs and the next state, or `None` where
    /// it could not be run.
    ///
    /// The model is given the end of the last frame that was scored, then this
    /// one. Only a frame that was scored is remembered: after an error the next
    /// frame finds the context and the state that this one found.
    pub fn process_frame<F: FnOnce(&[T], &[T]) -> Option<(Vec<T>, Vec<T>)>>(
        &mut self,
        frame: &[T],
        run: F,
    ) -> (probability: Result<T, VadError>)
        requires
            old(self).wf(),
            forall|input: &[T], state: &[T]|
                input@.len() == INPUT_SAMPLES && state@.len() == STATE_LEN
                    ==> #[trigger] call_requires(run, (input, state)),
            forall|input: &[T], state: &[T], outputs: Vec<T>, next_state: Vec<T>|
                #[trigger] call_ensures(run, (input, state), Some((outputs, next_state)))
                    ==> next_state@.len() == STATE_LEN,
        ensures
            final(self).wf(),
            final(self).silence() == old(self).silence(),
            frame@.len() != FRAME_SAMPLES <==> probability == Err::<T, VadError>(
                VadError::WrongFrameSize {
                    expected: FRAME_SAMPLES,
                    actual: frame@.len() as usize,
                },
            ),
            frame@.len() == FRAME_SAMPLES ==> exists|answer: Option<(Vec<T>, Vec<T>)>|
                {
                    &&& #[trigger] may_answer(
                        run,
                        old(self).context_samples() + frame@,
                        old(self).state_values(),
                        answer,
                    )
                    &&& probability == match answer {
                        None => Err(VadError::ModelFailed),
                        Some((outputs, _)) => if outputs@.len() == 0 {
                            Err(VadError::EmptyOutput)
                        } else {
                            Ok(outputs@[0])
                        },
                    }
                    &&& probability is Ok ==> final(self).state_values() == (answer->0).1@
                },
            probability is Ok ==> final(self).context_samples() == frame@.subrange(
                FRAME_SAMPLES - CONTEXT_SAMPLES,
                FRAME_SAMPLES as int,
            ),
            probability is Err ==> *final(self) == *old(self),
    {
        let input = match self.frame_input(frame) {
            Ok(input) => input,
            Err(error) => {
                return Err(error);
            },
        };
        let answer = run(input.as_slice(), self.state.as_slice());
        assert(may_answer(
            run,
            old(self).context_samples() + frame@,
            old(self).state_values(),
            answer,
        ));
        match answer {
            None => Err(VadError::ModelFailed),
            Some((outputs, next_state)) => {
                let result = self.take_output(
                    input.as_slice(),
                    outputs.as_slice(),
                    next_state.as_slice(),
                );
                assert(input@.subrange(INPUT_SAMPLES - CONTEXT_SAMPLES, INPUT_SAMPLES as int)
                    =~= frame@.subrange(
                    FRAME_SAMPLES - CONTEXT_SAMPLES,
                    FRAME_SAMPLES as int,
                ));
                result
            },
        }
    }
}

/// Frame after frame the model hears one stream: the input for each frame is
/// the stretch of the stream that ends with it and begins one context earlier,
/// and it leaves the context of the next.
pub proof fn law_inputs_follow_the_stream<T>(stream: Seq<T>, at: int, context: Seq<T>)
    requires
        CONTEXT_SAMPLES <= at,
        at + FRAME_SAMPLES <= stream.len(),
        context == stream.subrange(at - CONTEXT_SAMPLES, at),
    ensures
        ({
            let input = context + stream.subrange(at, at + FRAME_SAMPLES);
            let next = at + FRAME_SAMPLES;
            &&& input == stream.subrange(at - CONTEXT_SAMPLES, next)
            &&& input.subrange(INPUT_SAMPLES - CONTEXT_SAMPLES, INPUT_SAMPLES as int)
                == stream.subrange(next - CONTEXT_SAMPLES, next)
        }),
{
    let input = context + stream.subrange(at, at + FRAME_SAMPLES);
    let next = at + FRAME_SAMPLES;
    assert(input =~= stream.subrange(at - CONTEXT_SAMPLES, next));
    assert(input.subrange(INPUT_SAMPLES - CONTEXT_SAMPLES, INPUT_SAMPLES as int)
        =~= stream.subrange(next - CONTEXT_SAMPLES, next));
}

/// What silence looks like: the same value everywhere.
pub proof fn law_silence_is_even<T>(n: int, x: T)
    requires
        0 <= n,
    ensures
        filled(n, x).len() == n,
        forall|i: int| 0 <= i < n ==> #[trigger] filled(n, x)[i] == x,
{
}

/// The sizes that the model takes: a frame of 512 samples behind a context of 64,
/// and a state of two layers of 128.
pub proof fn law_the_sizes_of_the_model()
    ensures
        FRAME_SAMPLES == 512,
        CONTEXT_SAMPLES == 64,
        INPUT_SAMPLES == CONTEXT_SAMPLES + FRAME_SAMPLES,
        STATE_LEN == STATE_LAYERS * STATE_DIM,
        STATE_LAYERS == 2,
        STATE_DIM == 128,
        SAMPLE_RATE_HZ == 16_000,
{
}

} // verus!
