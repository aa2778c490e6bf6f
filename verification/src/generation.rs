//! One greedy generation of the cleanup model, token by token.

use vstd::prelude::*;

use crate::words::{trim, trimmed};

verus! {

/// A backstop: no cleanup of one utterance needs more.
pub const MAX_NEW_TOKENS: usize = 128;

/// The size of the model's context.
pub const CONTEXT_TOKENS: u32 = 512;

/// A generation under way.
pub struct Generation {
    output: String,
    produced: usize,
    position: i32,
}

pub ghost struct Generated {
    /// The pieces so far, one after the other.
    pub text: Seq<char>,
    /// How many there were.
    pub tokens: int,
    /// Where the next token goes in the model's cache.
    pub position: int,
}

/// Whether generation goes on: not after the limit, when its result is no
/// longer wanted, or where the model has ended it.
pub open spec fn goes_on(at: Generated, cancelled: bool, end_of_generation: bool) -> bool {
    at.tokens < MAX_NEW_TOKENS && !cancelled && !end_of_generation
}

/// One token further.
pub open spec fn extended(at: Generated, piece: Seq<char>) -> Generated {
    Generated { text: at.text + piece, tokens: at.tokens + 1, position: at.position + 1 }
}

impl View for Generation {
    type V = Generated;

    closed spec fn view(&self) -> Generated {
        Generated {
            text: self.output@,
            tokens: self.produced as int,
            position: self.position as int,
        }
    }
}

impl Generation {
    /// Tokens and positions can be counted to the limit.
    pub open spec fn wf(self) -> bool {
        &&& 0 <= self@.tokens <= MAX_NEW_TOKENS
        &&& self@.position + (MAX_NEW_TOKENS - self@.tokens) <= i32::MAX
    }

    /// A generation after a prompt of `prompt_tokens`.
    pub fn new(prompt_tokens: usize) -> (generation: Self)
        requires
            prompt_tokens + MAX_NEW_TOKENS <= i32::MAX,
        ensures
            generation.wf(),
            generation@ == (Generated {
                text: seq![],
                tokens: 0,
                position: prompt_tokens as int,
            }),
    {
        Generation { output: String::new(), produced: 0, position: prompt_tokens as i32 }
    }

    /// Whether to use the token that was sampled last.
    pub fn wants(&self, cancelled: bool, end_of_generation: bool) -> (more: bool)
        ensures
            more == goes_on(self@, cancelled, end_of_generation),
    {
        self.produced < MAX_NEW_TOKENS && !cancelled && !end_of_generation
    }

    /// Takes in the text of a token, and says at which position to decode it.
    pub fn take(&mut self, piece: &str) -> (position: i32)
        requires
            old(self).wf(),
            old(self)@.tokens < MAX_NEW_TOKENS,
        ensures
            final(self).wf(),
            final(self)@ == extended(old(self)@, piece@),
            position == old(self)@.position,
    {
        let position: i32 = self.position;
        self.output.append(piece);
        self.produced = self.produced + 1;
        self.position = self.position + 1;
        position
    }

    /// The text, without white space around it.
    pub fn finish(self) -> (text: String)
        ensures
            text@ == trim(self@.text),
    {
        trimmed(self.output.as_str())
    }
}

/// A generation after `pieces`.
pub open spec fn after_pieces(from: Generated, pieces: Seq<Seq<char>>) -> Generated
    decreases pieces.len(),
{
    if pieces.len() == 0 {
        from
    } else {
        extended(after_pieces(from, pieces.drop_last()), pieces.last())
    }
}

/// Each token goes one place behind the last in the model's cache, and none is
/// taken past the limit.
pub proof fn law_tokens_take_consecutive_places(
    from: Generated,
    pieces: Seq<Seq<char>>,
    cancelled: bool,
    end_of_generation: bool,
)
    ensures
        after_pieces(from, pieces).position == from.position + pieces.len(),
        after_pieces(from, pieces).tokens == from.tokens + pieces.len(),
        from.tokens + pieces.len() >= MAX_NEW_TOKENS ==> !goes_on(
            after_pieces(from, pieces),
            cancelled,
            end_of_generation,
        ),
        cancelled ==> !goes_on(after_pieces(from, pieces), cancelled, end_of_generation),
    decreases pieces.len(),
{
    if pieces.len() > 0 {
        law_tokens_take_consecutive_places(
            from,
            pieces.drop_last(),
            cancelled,
            end_of_generation,
        );
    }
}

/// When generation goes on: while the limit is not reached, the result is still
/// wanted and the model has not ended it.
pub proof fn law_when_generation_goes_on(at: Generated, cancelled: bool, ended: bool)
    ensures
        goes_on(at, cancelled, ended) <==> at.tokens < 128 && !cancelled && !ended,
{
}

/// What has been generated is the text of all pieces, one after the other.
pub proof fn law_pieces_make_the_text(from: Generated, pieces: Seq<Seq<char>>, piece: Seq<char>)
    ensures
        after_pieces(from, seq![]) == from,
        after_pieces(from, pieces.push(piece)).text == after_pieces(from, pieces).text + piece,
{
    assert(pieces.push(piece).drop_last() =~= pieces);
}

} // verus!
