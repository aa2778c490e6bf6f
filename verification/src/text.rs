//! Turns the segments of one decode into one line of text.

use vstd::prelude::*;

use crate::words::{all_space, gap, join, join_texts, lemma_trim_of_blank, texts, trim, trimmed};

verus! {

/// The texts of a list of string slices.
pub open spec fn slice_texts(list: Seq<&str>) -> Seq<Seq<char>> {
    list.map_values(|s: &str| s@)
}

/// The segments that hold more than white space, each trimmed.
pub open spec fn spoken_segments(segments: Seq<Seq<char>>) -> Seq<Seq<char>>
    decreases segments.len(),
{
    if segments.len() == 0 {
        seq![]
    } else {
        let before = spoken_segments(segments.drop_last());
        if trim(segments.last()).len() == 0 {
            before
        } else {
            before.push(trim(segments.last()))
        }
    }
}

/// Joins decoded segments into one utterance: each is trimmed, empty ones are
/// dropped, and single spaces go between the rest.
pub fn join_segments(segments: &[&str]) -> (out: String)
    ensures
        out@ == join(spoken_segments(slice_texts(segments@)), gap()),
{
    let mut kept: Vec<String> = Vec::new();
    let mut i: usize = 0;
    assert(texts(kept@) == spoken_segments(slice_texts(segments@).take(0)));
    while i < segments.len()
        invariant
            0 <= i <= segments@.len(),
            texts(kept@) == spoken_segments(slice_texts(segments@).take(i as int)),
        decreases segments.len() - i,
    {
        let ghost all = slice_texts(segments@);
        assert(all.take(i + 1).drop_last() == all.take(i as int));
        assert(all.take(i + 1).last() == segments@[i as int]@);
        let segment = trimmed(segments[i]);
        if !segment.as_str().is_empty() {
            let ghost before = kept@;
            kept.push(segment);
            assert(texts(kept@) == texts(before).push(segment@));
        }
        i += 1;
    }
    assert(slice_texts(segments@).take(i as int) == slice_texts(segments@));
    proof {
        reveal_strlit(" ");
        assert(" "@ == gap());
    }
    join_texts(kept.as_slice(), " ")
}

/// What is joined: of every segment what is left when it is trimmed, in order,
/// and nothing of one that is blank.
pub proof fn law_which_segments_are_joined(first: Seq<Seq<char>>, second: Seq<Seq<char>>, one: Seq<
    char,
>)
    ensures
        spoken_segments(seq![]).len() == 0,
        all_space(one) ==> spoken_segments(seq![one]).len() == 0,
        !all_space(one) ==> spoken_segments(seq![one]) == seq![trim(one)],
        spoken_segments(first + second) == spoken_segments(first) + spoken_segments(second),
    decreases second.len(),
{
    lemma_trim_of_blank(one);
    assert(seq![one].drop_last() =~= seq![]);
    assert(spoken_segments(seq![]) =~= seq![]);
    assert(seq![one].last() == one);
    if !all_space(one) {
        assert(spoken_segments(seq![one]) =~= seq![trim(one)]);
    }
    if second.len() == 0 {
        assert(first + second =~= first);
        assert(spoken_segments(first) + spoken_segments(second) =~= spoken_segments(first));
    } else {
        let rest = second.drop_last();
        law_which_segments_are_joined(first, rest, one);
        assert((first + second).drop_last() =~= first + rest);
        assert((first + second).last() == second.last());
        assert(spoken_segments(first + second) =~= spoken_segments(first) + spoken_segments(second));
    }
}

/// The texts of slices are theirs one by one.
pub proof fn law_texts_are_those_of_the_slices(list: Seq<&str>, i: int)
    ensures
        slice_texts(list).len() == list.len(),
        0 <= i < list.len() ==> slice_texts(list)[i] == list[i]@,
{
}

} // verus!
