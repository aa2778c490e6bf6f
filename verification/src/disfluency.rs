//! Rule-based removal of fillers, stutters and doubled words.
//!
//! Pure text work with no model behind it, cheap enough to run on every
//! utterance. It knows nothing of meaning: grammar and spoken
//! self-corrections are left as they are.

use vstd::prelude::*;

use crate::chars::{
    chars_of, is_alnum, is_letter, is_upper, lower, lower_of, text_of, upper, upper_of,
};
use crate::words::{gap, join, join_texts, runs, split_runs, split_words, texts, words, Separator};

verus! {

/// The sounds people make while thinking, which are dropped where one
/// stands alone. Words with ordinary uses ("well", "like", "so") are left out
/// on purpose.
pub open spec fn is_filler_form(form: Seq<char>) -> bool {
    ||| form == "um"@
    ||| form == "umm"@
    ||| form == "ummm"@
    ||| form == "uhm"@
    ||| form == "uh"@
    ||| form == "uhh"@
    ||| form == "uhhh"@
    ||| form == "er"@
    ||| form == "erm"@
    ||| form == "mmm"@
}

/// The words English really doubles ("I had had enough"), which are kept.
pub open spec fn is_legitimate_double(form: Seq<char>) -> bool {
    form == "had"@ || form == "that"@
}

/// How many characters at the start of `s` are neither letters nor digits.
pub open spec fn core_start(s: Seq<char>) -> nat
    decreases s.len(),
{
    if s.len() > 0 && !is_alnum(s[0]) {
        1 + core_start(s.drop_first())
    } else {
        0
    }
}

/// The end of the last letter or digit of `s`, or zero if it has none.
pub open spec fn last_alnum_end(s: Seq<char>) -> nat
    decreases s.len(),
{
    if s.len() == 0 {
        0
    } else if is_alnum(s.last()) {
        s.len()
    } else {
        last_alnum_end(s.drop_last())
    }
}

pub open spec fn core_end(s: Seq<char>) -> nat {
    if core_start(s) < last_alnum_end(s) {
        last_alnum_end(s)
    } else {
        core_start(s)
    }
}

/// The punctuation before the word of a token.
pub open spec fn prefix_of(token: Seq<char>) -> Seq<char> {
    token.take(core_start(token) as int)
}

/// The word of a token, from its first letter or digit to its last.
pub open spec fn core_of(token: Seq<char>) -> Seq<char> {
    token.subrange(core_start(token) as int, core_end(token) as int)
}

/// The punctuation after the word of a token.
pub open spec fn suffix_of(token: Seq<char>) -> Seq<char> {
    token.skip(core_end(token) as int)
}

/// The fragments of a word between its hyphens.
pub open spec fn fragments(core: Seq<char>) -> Seq<Seq<char>> {
    runs(core, Separator::Mark('-'))
}

/// Whether every fragment before the last is a start of the last one,
/// whatever the case.
pub open spec fn is_stutter(parts: Seq<Seq<char>>) -> bool {
    &&& parts.len() >= 2
    &&& forall|i: int|
        0 <= i < parts.len() - 1 ==> lower(#[trigger] parts[i]).is_prefix_of(lower(parts.last()))
}

/// A word with a stuttered start reduced to the word finally said.
pub open spec fn unstuttered(core: Seq<char>) -> Seq<char> {
    if is_stutter(fragments(core)) {
        fragments(core).last()
    } else {
        core
    }
}

/// Whether a token with this word says the last kept token again.
pub open spec fn says_again(kept: Seq<Seq<char>>, core: Seq<char>) -> bool {
    &&& kept.len() > 0
    &&& core_of(kept.last()).len() > 0
    &&& !is_legitimate_double(lower(core))
    &&& lower(core_of(kept.last())) == lower(core)
}

pub open spec fn ends_in_punctuation(token: Seq<char>) -> bool {
    token.len() > 0 && !is_alnum(token.last())
}

/// What is kept once `token` has been read after `kept`.
///
/// A token without a word, a dash or an ampersand, stays as it is. A filler
/// goes, but hands its trailing punctuation to the word before it. A repeated
/// word replaces the copy before it, with its own punctuation.
pub open spec fn keep_token(kept: Seq<Seq<char>>, token: Seq<char>) -> Seq<Seq<char>> {
    let core = unstuttered(core_of(token));
    let suffix = suffix_of(token);
    if core_of(token).len() == 0 {
        kept.push(token)
    } else if is_filler_form(lower(core)) {
        if suffix.len() > 0 && kept.len() > 0 && !ends_in_punctuation(kept.last()) {
            kept.drop_last().push(kept.last() + suffix)
        } else {
            kept
        }
    } else {
        let rebuilt = prefix_of(token) + core + suffix;
        if says_again(kept, core) {
            kept.drop_last().push(rebuilt)
        } else {
            kept.push(rebuilt)
        }
    }
}

/// What is kept of a list of tokens.
pub open spec fn kept_tokens(tokens: Seq<Seq<char>>) -> Seq<Seq<char>>
    decreases tokens.len(),
{
    if tokens.len() == 0 {
        seq![]
    } else {
        keep_token(kept_tokens(tokens.drop_last()), tokens.last())
    }
}

/// Where the first letter of `s` stands; its length if it has none.
pub open spec fn first_letter(s: Seq<char>) -> nat
    decreases s.len(),
{
    if s.len() > 0 && !is_letter(s[0]) {
        1 + first_letter(s.drop_first())
    } else {
        0
    }
}

/// Whether the first letter of `s` is a capital.
pub open spec fn starts_capitalized(s: Seq<char>) -> bool {
    first_letter(s) < s.len() && is_upper(s[first_letter(s) as int])
}

/// `s` with its first letter made a capital.
pub open spec fn capitalized(s: Seq<char>) -> Seq<char> {
    let at = first_letter(s) as int;
    if at >= s.len() || is_upper(s[at]) {
        s
    } else {
        s.take(at) + upper(s[at]) + s.skip(at + 1)
    }
}

/// What is left of `text` without its disfluencies.
pub open spec fn stripped(text: Seq<char>) -> Seq<char> {
    let rest = join(kept_tokens(words(text)), gap());
    if starts_capitalized(text) {
        capitalized(rest)
    } else {
        rest
    }
}

pub(crate) proof fn lemma_core_start(s: Seq<char>, k: int)
    requires
        0 <= k <= s.len(),
        forall|j: int| 0 <= j < k ==> !is_alnum(#[trigger] s[j]),
        k < s.len() ==> is_alnum(s[k]),
    ensures
        core_start(s) == k,
    decreases k,
{
    if k > 0 {
        assert(!is_alnum(s[0]));
        let rest = s.drop_first();
        assert forall|j: int| 0 <= j < k - 1 implies !is_alnum(#[trigger] rest[j]) by {
            assert(rest[j] == s[j + 1]);
        }
        lemma_core_start(rest, k - 1);
    }
}

pub(crate) proof fn lemma_last_alnum_end(s: Seq<char>, k: int)
    requires
        0 <= k <= s.len(),
        forall|j: int| k <= j < s.len() ==> !is_alnum(#[trigger] s[j]),
        k > 0 ==> is_alnum(s[k - 1]),
    ensures
        last_alnum_end(s) == k,
    decreases s.len(),
{
    if k < s.len() {
        assert(!is_alnum(s[s.len() - 1]));
        let rest = s.drop_last();
        assert forall|j: int| k <= j < rest.len() implies !is_alnum(#[trigger] rest[j]) by {
            assert(rest[j] == s[j]);
        }
        lemma_last_alnum_end(rest, k);
    }
}

proof fn lemma_first_letter(s: Seq<char>, k: int)
    requires
        0 <= k <= s.len(),
        forall|j: int| 0 <= j < k ==> !is_letter(#[trigger] s[j]),
        k < s.len() ==> is_letter(s[k]),
    ensures
        first_letter(s) == k,
    decreases k,
{
    if k > 0 {
        assert(!is_letter(s[0]));
        let rest = s.drop_first();
        assert forall|j: int| 0 <= j < k - 1 implies !is_letter(#[trigger] rest[j]) by {
            assert(rest[j] == s[j + 1]);
        }
        lemma_first_letter(rest, k - 1);
    }
}

/// Splits the punctuation at either end off a token.
pub fn split_affixes(token: &str) -> (parts: (String, String, String))
    ensures
        parts.0@ == prefix_of(token@),
        parts.1@ == core_of(token@),
        parts.2@ == suffix_of(token@),
{
    let cs = chars_of(token);
    let mut start: usize = 0;
    while start < cs.len() && !cs[start].is_alphanumeric()
        invariant
            0 <= start <= cs@.len(),
            forall|j: int| 0 <= j < start ==> !is_alnum(#[trigger] cs@[j]),
        decreases cs.len() - start,
    {
        start += 1;
    }
    let mut end: usize = cs.len();
    while end > start && !cs[end - 1].is_alphanumeric()
        invariant
            start <= end <= cs@.len(),
            start < cs@.len() ==> is_alnum(cs@[start as int]),
            forall|j: int| end <= j < cs@.len() ==> !is_alnum(#[trigger] cs@[j]),
        decreases end,
    {
        end -= 1;
    }
    proof {
        lemma_core_start(cs@, start as int);
        if start < cs@.len() {
            lemma_last_alnum_end(cs@, end as int);
        } else {
            lemma_last_alnum_end(cs@, 0);
        }
        assert(cs@.subrange(0, start as int) == cs@.take(start as int));
        assert(cs@.subrange(end as int, cs@.len() as int) == cs@.skip(end as int));
    }
    (text_of(&cs, 0, start), text_of(&cs, start, end), text_of(&cs, end, cs.len()))
}

/// Whether two texts are the same.
fn same_text(a: &str, b: &str) -> (same: bool)
    ensures
        same == (a@ == b@),
{
    a.to_owned() == b.to_owned()
}

/// Whether a word, in lower case, is one of the fillers.
fn is_filler_word(form: &str) -> (r: bool)
    ensures
        r == is_filler_form(form@),
{
    same_text(form, "um") || same_text(form, "umm") || same_text(form, "ummm") || same_text(
        form,
        "uhm",
    ) || same_text(form, "uh") || same_text(form, "uhh") || same_text(form, "uhhh") || same_text(
        form,
        "er",
    ) || same_text(form, "erm") || same_text(form, "mmm")
}

/// Whether a word is one of the fillers, whatever its case.
pub fn is_filler(core: &str) -> (r: bool)
    ensures
        r == is_filler_form(lower(core@)),
{
    is_filler_word(lower_of(core).as_str())
}

/// Whether `a` is a start of `b`.
fn starts(a: &str, b: &str) -> (r: bool)
    ensures
        r == a@.is_prefix_of(b@),
{
    let xs = chars_of(a);
    let ys = chars_of(b);
    if xs.len() > ys.len() {
        return false;
    }
    let mut i: usize = 0;
    while i < xs.len()
        invariant
            xs@ == a@,
            ys@ == b@,
            0 <= i <= xs@.len() <= ys@.len(),
            forall|j: int| 0 <= j < i ==> xs@[j] == ys@[j],
        decreases xs.len() - i,
    {
        if xs[i] != ys[i] {
            assert(ys@.subrange(0, xs@.len() as int)[i as int] == ys@[i as int]);
            return false;
        }
        i += 1;
    }
    assert(xs@ == ys@.subrange(0, xs@.len() as int));
    true
}

/// Reduces a stuttered word to the word finally said: `I-I-I` to `I`,
/// `wh-wh-what` to `what`. Any other hyphenated word stays.
pub fn collapse_hyphen_stutter(core: String) -> (out: String)
    ensures
        out@ == unstuttered(core@),
{
    let parts = split_runs(core.as_str(), Separator::Mark('-'));
    if parts.len() < 2 {
        return core;
    }
    let ghost all = texts(parts@);
    let last: usize = parts.len() - 1;
    let last_form = lower_of(parts[last].as_str());
    let mut i: usize = 0;
    while i < last
        invariant
            last == parts@.len() - 1,
            parts@.len() >= 2,
            all == texts(parts@),
            all == fragments(core@),
            last_form@ == lower(all.last()),
            0 <= i <= last,
            forall|j: int| 0 <= j < i ==> lower(#[trigger] all[j]).is_prefix_of(lower(all.last())),
        decreases last - i,
    {
        let form = lower_of(parts[i].as_str());
        assert(form@ == lower(all[i as int]));
        if !starts(form.as_str(), last_form.as_str()) {
            assert(!is_stutter(all));
            return core;
        }
        i += 1;
    }
    assert(is_stutter(all));
    parts[last].clone()
}

/// Whether a token with this word says the last kept token again.
pub fn repeats_previous(kept: &Vec<String>, core: &str) -> (r: bool)
    ensures
        r == says_again(texts(kept@), core@),
{
    if kept.len() == 0 {
        return false;
    }
    let form = lower_of(core);
    if same_text(form.as_str(), "had") || same_text(form.as_str(), "that") {
        return false;
    }
    let parts = split_affixes(kept[kept.len() - 1].as_str());
    let before = lower_of(parts.1.as_str());
    !parts.1.as_str().is_empty() && same_text(before.as_str(), form.as_str())
}

/// Makes the first letter of `s` a capital.
pub fn capitalize_first_letter(s: &str) -> (out: String)
    ensures
        out@ == capitalized(s@),
{
    let cs = chars_of(s);
    let mut at: usize = 0;
    while at < cs.len() && !cs[at].is_alphabetic()
        invariant
            0 <= at <= cs@.len(),
            forall|j: int| 0 <= j < at ==> !is_letter(#[trigger] cs@[j]),
        decreases cs.len() - at,
    {
        at += 1;
    }
    proof {
        lemma_first_letter(cs@, at as int);
    }
    if at == cs.len() || cs[at].is_uppercase() {
        return s.to_owned();
    }
    let mut out = text_of(&cs, 0, at);
    let big = upper_of(cs[at]);
    out.append(text_of(&big, 0, big.len()).as_str());
    out.append(text_of(&cs, at + 1, cs.len()).as_str());
    assert(big@.subrange(0, big@.len() as int) == big@);
    assert(cs@.subrange(0, at as int) == cs@.take(at as int));
    assert(cs@.subrange(at + 1, cs@.len() as int) == cs@.skip(at + 1));
    out
}

/// Whether the first letter of `s` is a capital.
fn begins_capitalized(s: &str) -> (r: bool)
    ensures
        r == starts_capitalized(s@),
{
    let cs = chars_of(s);
    let mut at: usize = 0;
    while at < cs.len() && !cs[at].is_alphabetic()
        invariant
            0 <= at <= cs@.len(),
            forall|j: int| 0 <= j < at ==> !is_letter(#[trigger] cs@[j]),
        decreases cs.len() - at,
    {
        at += 1;
    }
    proof {
        lemma_first_letter(cs@, at as int);
    }
    at < cs.len() && cs[at].is_uppercase()
}

/// Whether the last character of `token` is punctuation.
fn is_punctuated(token: &str) -> (r: bool)
    ensures
        r == ends_in_punctuation(token@),
{
    let cs = chars_of(token);
    cs.len() > 0 && !cs[cs.len() - 1].is_alphanumeric()
}

/// Replaces the last text of `kept`.
fn replace_last(kept: &mut Vec<String>, text: String)
    requires
        old(kept)@.len() > 0,
    ensures
        texts(final(kept)@) == texts(old(kept)@).drop_last().push(text@),
{
    kept.pop();
    kept.push(text);
    assert(texts(kept@) == texts(old(kept)@).drop_last().push(text@));
}

/// Reads one token after what is already kept.
pub fn push_token(kept: &mut Vec<String>, token: &str)
    ensures
        texts(final(kept)@) == keep_token(texts(old(kept)@), token@),
{
    let (prefix, raw, suffix) = split_affixes(token);
    if raw.as_str().is_empty() {
        let whole = token.to_owned();
        kept.push(whole);
        assert(texts(kept@) == texts(old(kept)@).push(whole@));
        return;
    }
    let core = collapse_hyphen_stutter(raw);
    if is_filler(core.as_str()) {
        if !suffix.as_str().is_empty() && kept.len() > 0 {
            let mut last = kept[kept.len() - 1].clone();
            if !is_punctuated(last.as_str()) {
                last.append(suffix.as_str());
                replace_last(kept, last);
            }
        }
        return;
    }
    let again = repeats_previous(kept, core.as_str());
    let mut rebuilt = prefix;
    rebuilt.append(core.as_str());
    rebuilt.append(suffix.as_str());
    if again {
        replace_last(kept, rebuilt);
    } else {
        kept.push(rebuilt);
        assert(texts(kept@) == texts(old(kept)@).push(rebuilt@));
    }
}

/// Strips fillers, stutters and accidental repeats from a raw transcript.
pub fn strip_disfluencies(text: &str) -> (out: String)
    ensures
        out@ == stripped(text@),
{
    let tokens = split_words(text);
    let mut kept: Vec<String> = Vec::new();
    let mut i: usize = 0;
    assert(texts(kept@) == kept_tokens(texts(tokens@).take(0)));
    while i < tokens.len()
        invariant
            0 <= i <= tokens@.len(),
            texts(kept@) == kept_tokens(texts(tokens@).take(i as int)),
        decreases tokens.len() - i,
    {
        let ghost all = texts(tokens@);
        assert(all.take(i + 1).drop_last() == all.take(i as int));
        assert(all.take(i + 1).last() == tokens@[i as int]@);
        push_token(&mut kept, tokens[i].as_str());
        i += 1;
    }
    assert(texts(tokens@).take(i as int) == texts(tokens@));
    proof {
        reveal_strlit(" ");
        assert(" "@ == gap());
    }
    let rest = join_texts(kept.as_slice(), " ");
    if begins_capitalized(text) {
        capitalize_first_letter(rest.as_str())
    } else {
        rest
    }
}

} // verus!
