//! Stitches the transcripts of consecutive rolling windows into one
//! utterance.
//!
//! Windows overlap, and decoding runs without timestamps, so nothing says
//! where the overlap falls in the text. The longest run of words that ends
//! what is committed and begins the new window is taken to be the overlap,
//! and only what follows it is appended. Each window is decoded as a fresh
//! sentence, re-capitalised and re-punctuated, so words are compared without
//! case and without punctuation at their ends. What is emitted is always the
//! text as it was transcribed.

use vstd::prelude::*;

use crate::chars::{
    chars_of, is_alnum, is_letter, law_classes_of_ascii, law_lower_case_of_ascii, lower, lower_of, text_of,
};
use crate::words::{
    gap, is_word, join, join_texts, law_trimming_drops_the_ends, lemma_trim_by, lemma_words_are_words, lemma_words_of_join,
    split_words, texts, trim_by, words,
};

verus! {

/// Whether `c` belongs to a word wherever it stands: a letter, a digit or an
/// apostrophe.
pub open spec fn is_word_char(c: char) -> bool {
    is_alnum(c) || c == '\''
}

/// A word as it is compared: lower case, without punctuation at its ends.
pub open spec fn normal_form(word: Seq<char>) -> Seq<char> {
    lower(trim_by(word, |c: char| !is_word_char(c)))
}

pub open spec fn normal_forms(list: Seq<Seq<char>>) -> Seq<Seq<char>> {
    list.map_values(|w: Seq<char>| normal_form(w))
}

/// Whether the last `n` of `committed` are the first `n` of `next`.
pub open spec fn overlaps_by(committed: Seq<Seq<char>>, next: Seq<Seq<char>>, n: int) -> bool {
    &&& 0 <= n <= committed.len()
    &&& n <= next.len()
    &&& committed.skip(committed.len() - n) == next.take(n)
}

/// The largest `n` up to `limit` by which `committed` and `next` overlap.
pub open spec fn longest_overlap(
    committed: Seq<Seq<char>>,
    next: Seq<Seq<char>>,
    limit: nat,
) -> nat
    decreases limit,
{
    if limit == 0 {
        0
    } else if overlaps_by(committed, next, limit as int) {
        limit
    } else {
        longest_overlap(committed, next, (limit - 1) as nat)
    }
}

/// How many words `next` repeats of the end of `committed`.
pub open spec fn repeated_words(committed: Seq<Seq<char>>, next: Seq<Seq<char>>) -> nat {
    longest_overlap(
        normal_forms(committed),
        normal_forms(next),
        if committed.len() < next.len() {
            committed.len()
        } else {
            next.len()
        },
    )
}

/// The words of `committed`, then those of `next` that it does not repeat.
pub open spec fn merged_words(committed: Seq<Seq<char>>, next: Seq<Seq<char>>) -> Seq<Seq<char>> {
    committed + next.skip(repeated_words(committed, next) as int)
}

/// The text that merging a window into what is committed gives.
pub open spec fn merged(committed: Seq<char>, next: Seq<char>) -> Seq<char> {
    join(merged_words(words(committed), words(next)), gap())
}

/// The form in which a word is compared.
pub fn normalized(word: &str) -> (out: String)
    ensures
        out@ == normal_form(word@),
{
    let cs = chars_of(word);
    let mut from: usize = 0;
    while from < cs.len() && !(cs[from].is_alphanumeric() || cs[from] == '\'')
        invariant
            0 <= from <= cs@.len(),
            forall|j: int| 0 <= j < from ==> !is_word_char(#[trigger] cs@[j]),
        decreases cs.len() - from,
    {
        from += 1;
    }
    let mut to: usize = cs.len();
    while to > from && !(cs[to - 1].is_alphanumeric() || cs[to - 1] == '\'')
        invariant
            from <= to <= cs@.len(),
            forall|j: int| to <= j < cs@.len() ==> !is_word_char(#[trigger] cs@[j]),
            from < cs@.len() ==> is_word_char(cs@[from as int]),
        decreases to,
    {
        to -= 1;
    }
    proof {
        lemma_trim_by(cs@, |c: char| !is_word_char(c), from as int, to as int);
    }
    lower_of(text_of(&cs, from, to).as_str())
}

fn normalize_all(list: &Vec<String>) -> (out: Vec<String>)
    ensures
        texts(out@) == normal_forms(texts(list@)),
{
    let mut out: Vec<String> = Vec::new();
    let mut i: usize = 0;
    while i < list.len()
        invariant
            0 <= i <= list@.len(),
            out@.len() == i,
            forall|j: int| 0 <= j < i ==> (#[trigger] out@[j])@ == normal_form(list@[j]@),
        decreases list.len() - i,
    {
        out.push(normalized(list[i].as_str()));
        i += 1;
    }
    out
}

/// Whether the last `n` texts of `committed` are the first `n` of `next`.
fn overlap_matches(committed: &Vec<String>, next: &Vec<String>, n: usize) -> (same: bool)
    requires
        n <= committed@.len(),
        n <= next@.len(),
    ensures
        same == overlaps_by(texts(committed@), texts(next@), n as int),
{
    let skipped: usize = committed.len() - n;
    let mut i: usize = 0;
    while i < n
        invariant
            n <= committed@.len(),
            n <= next@.len(),
            skipped + n == committed.len(),
            0 <= i <= n,
            forall|j: int| 0 <= j < i ==> committed@[skipped + j]@ == (#[trigger] next@[j])@,
        decreases n - i,
    {
        if committed[skipped + i] != next[i] {
            proof {
                let tail = texts(committed@).skip(skipped as int);
                assert(tail[i as int] == committed@[skipped + i]@);
                assert(texts(next@).take(n as int)[i as int] == next@[i as int]@);
            }
            return false;
        }
        i += 1;
    }
    assert(texts(committed@).skip(skipped as int) == texts(next@).take(n as int));
    true
}

/// How many texts at the start of `next` repeat the end of `committed`: the
/// longest run counts.
pub fn overlap_len(committed: &Vec<String>, next: &Vec<String>) -> (n: usize)
    ensures
        overlaps_by(texts(committed@), texts(next@), n as int),
        forall|m: int| n < m ==> !#[trigger] overlaps_by(texts(committed@), texts(next@), m),
        n == longest_overlap(
            texts(committed@),
            texts(next@),
            if committed@.len() < next@.len() {
                committed@.len()
            } else {
                next@.len()
            },
        ),
{
    let limit: usize = if committed.len() < next.len() {
        committed.len()
    } else {
        next.len()
    };
    let mut n: usize = limit;
    while n > 0
        invariant
            n <= limit,
            limit <= committed@.len(),
            limit <= next@.len(),
            limit == committed@.len() || limit == next@.len(),
            forall|m: int| n < m ==> !#[trigger] overlaps_by(texts(committed@), texts(next@), m),
            longest_overlap(texts(committed@), texts(next@), limit as nat) == longest_overlap(
                texts(committed@),
                texts(next@),
                n as nat,
            ),
        decreases n,
    {
        if overlap_matches(committed, next, n) {
            return n;
        }
        n -= 1;
    }
    assert(texts(committed@).skip(committed@.len() as int) == texts(next@).take(0));
    0
}

/// Merges `next_window_text` into `committed`, dropping the words at its
/// start that repeat the end of `committed`.
pub fn merge_overlap(committed: &str, next_window_text: &str) -> (out: String)
    ensures
        out@ == merged(committed@, next_window_text@),
{
    let mut kept = split_words(committed);
    let next_words = split_words(next_window_text);
    let committed_norm = normalize_all(&kept);
    let next_norm = normalize_all(&next_words);
    let repeated: usize = overlap_len(&committed_norm, &next_norm);
    let ghost before = texts(kept@);
    let mut i: usize = repeated;
    while i < next_words.len()
        invariant
            repeated <= i <= next_words@.len(),
            texts(kept@) == before + texts(next_words@).subrange(repeated as int, i as int),
        decreases next_words.len() - i,
    {
        let ghost so_far = kept@;
        kept.push(next_words[i].clone());
        assert(texts(kept@) == texts(so_far).push(next_words@[i as int]@));
        i += 1;
    }
    assert(texts(next_words@).subrange(repeated as int, i as int) == texts(next_words@).skip(
        repeated as int,
    ));
    proof {
        reveal_strlit(" ");
        assert(" "@ == gap());
        assert(repeated == repeated_words(words(committed@), words(next_window_text@)));
    }
    join_texts(kept.as_slice(), " ")
}

proof fn lemma_longest_overlap(committed: Seq<Seq<char>>, next: Seq<Seq<char>>, limit: nat)
    requires
        limit <= committed.len(),
        limit <= next.len(),
    ensures
        longest_overlap(committed, next, limit) <= limit,
        overlaps_by(committed, next, longest_overlap(committed, next, limit) as int),
        forall|m: int|
            longest_overlap(committed, next, limit) < m <= limit ==> !#[trigger] overlaps_by(
                committed,
                next,
                m,
            ),
    decreases limit,
{
    if limit == 0 {
        assert(committed.skip(committed.len() as int) == next.take(0));
    } else if !overlaps_by(committed, next, limit as int) {
        lemma_longest_overlap(committed, next, (limit - 1) as nat);
    }
}

/// The overlap is a true one, and no longer one exists.
pub proof fn law_longest_overlap_wins(committed: Seq<Seq<char>>, next: Seq<Seq<char>>)
    ensures
        overlaps_by(
            normal_forms(committed),
            normal_forms(next),
            repeated_words(committed, next) as int,
        ),
        forall|m: int|
            repeated_words(committed, next) < m ==> !#[trigger] overlaps_by(
                normal_forms(committed),
                normal_forms(next),
                m,
            ),
{
    let limit = if committed.len() < next.len() {
        committed.len()
    } else {
        next.len()
    };
    lemma_longest_overlap(normal_forms(committed), normal_forms(next), limit);
}

/// The words of a merged text are the committed words, unchanged, followed
/// by the words of the window that follow the overlap, unchanged.
pub proof fn law_merge_keeps_original_words(committed: Seq<char>, next: Seq<char>)
    ensures
        words(merged(committed, next)) == words(committed) + words(next).skip(
            repeated_words(words(committed), words(next)) as int,
        ),
{
    let kept = words(committed);
    let added = words(next);
    law_longest_overlap_wins(kept, added);
    lemma_words_are_words(committed);
    lemma_words_are_words(next);
    let all = merged_words(kept, added);
    assert forall|i: int| 0 <= i < all.len() implies is_word(#[trigger] all[i]) by {
        if i < kept.len() {
            assert(all[i] == kept[i]);
        } else {
            assert(all[i] == added[i - kept.len() + repeated_words(kept, added)]);
        }
    }
    lemma_words_of_join(all);
}

/// A window with no words leaves the committed words as they are, and the
/// first window of all seeds them.
pub proof fn law_merge_with_nothing(text: Seq<char>, blank: Seq<char>)
    requires
        words(blank).len() == 0,
    ensures
        merged(text, blank) == join(words(text), gap()),
        merged(blank, text) == join(words(text), gap()),
{
    law_longest_overlap_wins(words(text), words(blank));
    law_longest_overlap_wins(words(blank), words(text));
    assert(words(text) + words(blank).skip(0) == words(text));
    assert(words(blank) + words(text).skip(0) == words(text));
}

/// A window that says exactly what is committed adds nothing.
pub proof fn law_identical_window_adds_nothing(text: Seq<char>)
    ensures
        merged(text, text) == join(words(text), gap()),
{
    let list = words(text);
    law_longest_overlap_wins(list, list);
    assert(normal_forms(list).skip(0) == normal_forms(list).take(list.len() as int));
    assert(overlaps_by(normal_forms(list), normal_forms(list), list.len() as int));
    assert(list + list.skip(list.len() as int) == list);
}

/// The end of a merged list, as it is compared, is the window just merged.
proof fn lemma_merged_ends_with_window(committed: Seq<Seq<char>>, next: Seq<Seq<char>>)
    ensures
        overlaps_by(
            normal_forms(merged_words(committed, next)),
            normal_forms(next),
            next.len() as int,
        ),
{
    law_longest_overlap_wins(committed, next);
    let k = repeated_words(committed, next) as int;
    let all = merged_words(committed, next);
    let all_norm = normal_forms(all);
    let next_norm = normal_forms(next);
    let committed_norm = normal_forms(committed);
    let tail = all_norm.skip(all.len() - next.len());
    let shared = committed_norm.skip(committed.len() - k);
    assert(shared == next_norm.take(k));
    assert forall|i: int| 0 <= i < next.len() implies tail[i] == next_norm[i] by {
        if i < k {
            assert(tail[i] == normal_form(committed[committed.len() - k + i]));
            assert(shared[i] == committed_norm[committed.len() - k + i]);
            assert(next_norm.take(k)[i] == next_norm[i]);
        } else {
            assert(all[all.len() - next.len() + i] == next[i]);
        }
    }
    assert(tail == next_norm.take(next.len() as int));
}

/// A window that repeats what the end of the committed text already says
/// adds nothing: merging it a second time changes nothing.
pub proof fn law_repeated_window_adds_nothing(committed: Seq<char>, next: Seq<char>)
    ensures
        merged(merged(committed, next), next) == merged(committed, next),
{
    law_merge_keeps_original_words(committed, next);
    let all = merged_words(words(committed), words(next));
    let added = words(next);
    lemma_merged_ends_with_window(words(committed), added);
    law_longest_overlap_wins(words(committed), added);
    law_longest_overlap_wins(all, added);
    assert(repeated_words(all, added) == added.len()) by {
        let k = repeated_words(all, added);
        if k < added.len() {
            assert(!overlaps_by(normal_forms(all), normal_forms(added), added.len() as int));
        }
    }
    assert(all + added.skip(added.len() as int) == all);
}

/// What of a word is compared: all from its first letter, digit or apostrophe
/// to its last, in lower case.
pub proof fn law_a_word_is_compared_whole(word: Seq<char>) -> (ends: (int, int))
    ensures
        0 <= ends.0 <= ends.1 <= word.len(),
        normal_form(word) == lower(word.subrange(ends.0, ends.1)),
        forall|j: int|
            0 <= j < ends.0 ==> !is_alnum(#[trigger] word[j]) && word[j] != '\'',
        forall|j: int|
            ends.1 <= j < word.len() ==> !is_alnum(#[trigger] word[j]) && word[j] != '\'',
        ends.0 < ends.1 ==> {
            &&& is_alnum(word[ends.0]) || word[ends.0] == '\''
            &&& is_alnum(word[ends.1 - 1]) || word[ends.1 - 1] == '\''
        },
{
    law_trimming_drops_the_ends(word, |c: char| !is_word_char(c))
}

/// Two words of ASCII compare as equal only if, from the first letter, digit or
/// apostrophe to the last, they are equally long and have the same characters
/// but for the case of letters.
pub proof fn law_equal_words_differ_in_case_only(v: Seq<char>, w: Seq<char>) -> (ends: (
    (int, int),
    (int, int),
))
    requires
        forall|i: int| 0 <= i < v.len() ==> ((#[trigger] v[i]) as u32) < 128,
        forall|i: int| 0 <= i < w.len() ==> ((#[trigger] w[i]) as u32) < 128,
        normal_form(v) == normal_form(w),
    ensures
        ({
            let ((a, b), (c, d)) = ends;
            &&& 0 <= a <= b <= v.len()
            &&& 0 <= c <= d <= w.len()
            &&& b - a == d - c
            &&& forall|i: int|
                0 <= i < v.len() && !(a <= i < b) ==> !is_alnum(#[trigger] v[i]) && v[i] != '\''
            &&& forall|i: int|
                0 <= i < w.len() && !(c <= i < d) ==> !is_alnum(#[trigger] w[i]) && w[i] != '\''
            &&& forall|i: int|
                a <= i < b ==> #[trigger] v[i] == w[i - a + c] || (is_letter(v[i]) && is_letter(
                    w[i - a + c],
                ) && (v[i] as u32 - w[i - a + c] as u32 == 32 || w[i - a + c] as u32 - v[i] as u32
                    == 32))
        }),
{
    let (a, b) = law_a_word_is_compared_whole(v);
    let (c, d) = law_a_word_is_compared_whole(w);
    let x = v.subrange(a, b);
    let y = w.subrange(c, d);
    assert forall|i: int| 0 <= i < x.len() implies ((#[trigger] x[i]) as u32) < 128 by {
        assert(x[i] == v[a + i]);
    }
    assert forall|i: int| 0 <= i < y.len() implies ((#[trigger] y[i]) as u32) < 128 by {
        assert(y[i] == w[c + i]);
    }
    law_lower_case_of_ascii(x);
    law_lower_case_of_ascii(y);
    assert forall|i: int| a <= i < b implies #[trigger] v[i] == w[i - a + c] || (is_letter(v[i])
        && is_letter(w[i - a + c]) && (v[i] as u32 - w[i - a + c] as u32 == 32 || w[i - a
        + c] as u32 - v[i] as u32 == 32)) by {
        assert(x[i - a] == v[i]);
        assert(y[i - a] == w[i - a + c]);
        assert(lower(x)[i - a] == lower(y)[i - a]);
        assert((v[i] as u32) < 128 && (w[i - a + c] as u32) < 128);
        if v[i] as u32 == w[i - a + c] as u32 {
            assert(v[i] == w[i - a + c]);
        }
    }
    ((a, b), (c, d))
}

/// A word of ASCII letters and digits is compared as it is but for its case.
pub proof fn law_a_plain_word_is_its_own_form(word: Seq<char>)
    requires
        forall|i: int|
            0 <= i < word.len() ==> (48 <= (#[trigger] word[i]) as u32 <= 57 || 65 <= word[i] as u32
                <= 90 || 97 <= word[i] as u32 <= 122),
    ensures
        normal_form(word).len() == word.len(),
        forall|i: int|
            0 <= i < word.len() ==> (#[trigger] normal_form(word)[i]) as u32 == if 65
                <= word[i] as u32 <= 90 {
                word[i] as u32 + 32
            } else {
                word[i] as u32 as int
            },
{
    let (a, b) = law_a_word_is_compared_whole(word);
    if a > 0 {
        let c = word[0];
        assert(48 <= c as u32 <= 57 || 65 <= c as u32 <= 90 || 97 <= c as u32 <= 122);
        law_classes_of_ascii(c);
    }
    if b < word.len() {
        let c = word[word.len() - 1];
        assert(48 <= c as u32 <= 57 || 65 <= c as u32 <= 90 || 97 <= c as u32 <= 122);
        law_classes_of_ascii(c);
    }
    assert(word.subrange(a, b) =~= word);
    law_lower_case_of_ascii(word);
}

/// What a merge is: all words of `committed`, then the words of `next` without
/// the first `k`, with one space between each two. Those `k` compare as equal to
/// the last `k` of `committed`, one by one, and for no larger number does that
/// hold.
pub proof fn law_what_a_merge_is(committed: Seq<char>, next: Seq<char>) -> (k: int)
    ensures
        ({
            let kept = words(committed);
            let added = words(next);
            &&& 0 <= k <= kept.len()
            &&& k <= added.len()
            &&& forall|j: int|
                0 <= j < k ==> normal_form(kept[kept.len() - k + j]) == normal_form(
                    #[trigger] added[j],
                )
            &&& forall|m: int|
                k < m <= kept.len() && m <= added.len() && (#[trigger] added.take(m)).len() == m
                    ==> exists|j: int|
                    0 <= j < m && normal_form(kept[kept.len() - m + j]) != normal_form(
                        #[trigger] added[j],
                    )
            &&& merged(committed, next) == join(kept + added.skip(k), seq![' '])
            &&& words(merged(committed, next)) == kept + added.skip(k)
        }),
{
    let kept = words(committed);
    let added = words(next);
    let k = repeated_words(kept, added) as int;
    law_longest_overlap_wins(kept, added);
    law_merge_keeps_original_words(committed, next);
    let kn = normal_forms(kept);
    let an = normal_forms(added);
    assert forall|j: int| 0 <= j < k implies normal_form(kept[kept.len() - k + j]) == normal_form(
        #[trigger] added[j],
    ) by {
        assert(kn.skip(kn.len() - k)[j] == kn[kn.len() - k + j]);
        assert(an.take(k)[j] == an[j]);
    }
    assert forall|m: int|
        k < m <= kept.len() && m <= added.len() && (#[trigger] added.take(m)).len()
            == m implies exists|j: int|
        0 <= j < m && normal_form(kept[kept.len() - m + j]) != normal_form(#[trigger] added[j]) by {
        assert(!overlaps_by(kn, an, m));
        let tail = kn.skip(kn.len() - m);
        let head = an.take(m);
        if forall|j: int|
            0 <= j < m ==> normal_form(kept[kept.len() - m + j]) == normal_form(#[trigger] added[j]) {
            assert forall|j: int| 0 <= j < m implies tail[j] == head[j] by {
                assert(normal_form(kept[kept.len() - m + j]) == normal_form(added[j]));
            }
            assert(tail =~= head);
        }
    }
    k
}

} // verus!
