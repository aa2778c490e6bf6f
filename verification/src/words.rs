//! Splitting text into words, trimming it, and joining words back.

use vstd::prelude::*;

use crate::chars::{chars_of, is_space, text_of};

verus! {

/// The texts of a list of strings.
pub open spec fn texts(list: Seq<String>) -> Seq<Seq<char>> {
    list.map_values(|s: String| s@)
}

/// What comes between two pieces of a text.
#[derive(Clone, Copy)]
pub enum Separator {
    /// Any white space.
    Space,
    /// One given character.
    Mark(char),
}

impl Separator {
    pub open spec fn separates(self, c: char) -> bool {
        match self {
            Separator::Space => is_space(c),
            Separator::Mark(mark) => c == mark,
        }
    }

    fn matches(self, c: char) -> (r: bool)
        ensures
            r == self.separates(c),
    {
        match self {
            Separator::Space => c.is_whitespace(),
            Separator::Mark(mark) => c == mark,
        }
    }
}

/// The maximal runs of characters of `s` that are not separators.
pub open spec fn runs(s: Seq<char>, sep: Separator) -> Seq<Seq<char>>
    decreases s.len(),
{
    if s.len() == 0 {
        seq![]
    } else {
        let before = s.drop_last();
        let found = runs(before, sep);
        if sep.separates(s.last()) {
            found
        } else if before.len() == 0 || sep.separates(before.last()) {
            found.push(seq![s.last()])
        } else {
            found.drop_last().push(found.last().push(s.last()))
        }
    }
}

/// The maximal runs of characters of `s` that are not white space.
pub open spec fn words(s: Seq<char>) -> Seq<Seq<char>> {
    runs(s, Separator::Space)
}

/// A non-empty run of characters without a separator.
pub open spec fn is_run(w: Seq<char>, sep: Separator) -> bool {
    &&& w.len() > 0
    &&& forall|i: int| 0 <= i < w.len() ==> !sep.separates(#[trigger] w[i])
}

/// A non-empty run of characters without white space.
pub open spec fn is_word(w: Seq<char>) -> bool {
    is_run(w, Separator::Space)
}

/// `parts` in order, with `sep` between each two of them.
pub open spec fn join(parts: Seq<Seq<char>>, sep: Seq<char>) -> Seq<char>
    decreases parts.len(),
{
    if parts.len() == 0 {
        seq![]
    } else if parts.len() == 1 {
        parts[0]
    } else {
        join(parts.drop_last(), sep) + sep + parts.last()
    }
}

/// `s` without the leading characters for which `drop` holds.
pub open spec fn trim_start_by(s: Seq<char>, drop: spec_fn(char) -> bool) -> Seq<char>
    decreases s.len(),
{
    if s.len() > 0 && drop(s[0]) {
        trim_start_by(s.drop_first(), drop)
    } else {
        s
    }
}

/// `s` without the trailing characters for which `drop` holds.
pub open spec fn trim_end_by(s: Seq<char>, drop: spec_fn(char) -> bool) -> Seq<char>
    decreases s.len(),
{
    if s.len() > 0 && drop(s.last()) {
        trim_end_by(s.drop_last(), drop)
    } else {
        s
    }
}

/// `s` without the characters at either end for which `drop` holds.
pub open spec fn trim_by(s: Seq<char>, drop: spec_fn(char) -> bool) -> Seq<char> {
    trim_end_by(trim_start_by(s, drop), drop)
}

/// `s` without white space at either end.
pub open spec fn trim(s: Seq<char>) -> Seq<char> {
    trim_by(s, |c: char| is_space(c))
}

/// The text between two words of a sentence.
pub open spec fn gap() -> Seq<char> {
    seq![' ']
}

/// Reading on to one more character either ends a word, starts one, or
/// makes the last one longer.
proof fn lemma_runs_step(s: Seq<char>, sep: Separator, i: int)
    requires
        0 <= i < s.len(),
    ensures
        sep.separates(s[i]) ==> runs(s.take(i + 1), sep) == runs(s.take(i), sep),
        !sep.separates(s[i]) && (i == 0 || sep.separates(s[i - 1])) ==> runs(s.take(i + 1), sep)
            == runs(s.take(i), sep).push(seq![s[i]]),
        !sep.separates(s[i]) && i > 0 && !sep.separates(s[i - 1]) ==> runs(s.take(i + 1), sep)
            == runs(s.take(i), sep).drop_last().push(runs(s.take(i), sep).last().push(s[i])),
{
    assert(s.take(i + 1).drop_last() == s.take(i));
    assert(s.take(i + 1).last() == s[i]);
    if i > 0 {
        assert(s.take(i).last() == s[i - 1]);
    }
}

/// The runs of `s` between separators, in order.
pub fn split_runs(s: &str, sep: Separator) -> (out: Vec<String>)
    ensures
        texts(out@) == runs(s@, sep),
{
    let cs = chars_of(s);
    let mut out: Vec<String> = Vec::new();
    let mut current = String::new();
    let mut in_word = false;
    let mut i: usize = 0;
    while i < cs.len()
        invariant
            cs@ == s@,
            0 <= i <= cs@.len(),
            in_word == (i > 0 && !sep.separates(cs@[i - 1])),
            in_word ==> runs(cs@.take(i as int), sep) == texts(out@).push(current@),
            !in_word ==> runs(cs@.take(i as int), sep) == texts(out@) && current@ == Seq::<
                char,
            >::empty(),
        decreases cs.len() - i,
    {
        let c = cs[i];
        proof {
            lemma_runs_step(cs@, sep, i as int);
        }
        if sep.matches(c) {
            if in_word {
                let ghost before = out@;
                out.push(current);
                assert(texts(out@) == texts(before).push(current@));
                current = String::new();
                in_word = false;
            }
        } else {
            let ghost found = runs(cs@.take(i as int), sep);
            assert(in_word ==> found.drop_last() == texts(out@));
            let ghost before = current@;
            current.push(c);
            assert(before.len() == 0 ==> current@ == seq![c]);
            in_word = true;
        }
        i += 1;
    }
    assert(cs@.take(i as int) == cs@);
    if in_word {
        let ghost before = out@;
        out.push(current);
        assert(texts(out@) == texts(before).push(current@));
    }
    out
}

/// The words of `s`, in order.
pub fn split_words(s: &str) -> (out: Vec<String>)
    ensures
        texts(out@) == words(s@),
{
    split_runs(s, Separator::Space)
}

/// `parts` in order, with `sep` between each two of them.
pub fn join_texts(parts: &[String], sep: &str) -> (out: String)
    ensures
        out@ == join(texts(parts@), sep@),
{
    let mut out = String::new();
    let mut i: usize = 0;
    while i < parts.len()
        invariant
            0 <= i <= parts@.len(),
            out@ == join(texts(parts@).take(i as int), sep@),
        decreases parts.len() - i,
    {
        let ghost all = texts(parts@);
        assert(all.take(i + 1).drop_last() == all.take(i as int));
        assert(all.take(i + 1).last() == parts@[i as int]@);
        if i > 0 {
            out.append(sep);
        }
        out.append(parts[i].as_str());
        assert(out@ == join(all.take(i + 1), sep@));
        i += 1;
    }
    assert(texts(parts@).take(i as int) == texts(parts@));
    out
}

proof fn lemma_trim_start_by(s: Seq<char>, drop: spec_fn(char) -> bool, k: int)
    requires
        0 <= k <= s.len(),
        forall|j: int| 0 <= j < k ==> drop(#[trigger] s[j]),
        k < s.len() ==> !drop(s[k]),
    ensures
        trim_start_by(s, drop) == s.skip(k),
    decreases k,
{
    if k > 0 {
        assert(drop(s[0]));
        let rest = s.drop_first();
        assert forall|j: int| 0 <= j < k - 1 implies drop(#[trigger] rest[j]) by {
            assert(rest[j] == s[j + 1]);
        }
        lemma_trim_start_by(rest, drop, k - 1);
        assert(rest.skip(k - 1) == s.skip(k));
    } else {
        assert(s.skip(0) == s);
    }
}

proof fn lemma_trim_end_by(s: Seq<char>, drop: spec_fn(char) -> bool, k: int)
    requires
        0 <= k <= s.len(),
        forall|j: int| k <= j < s.len() ==> drop(#[trigger] s[j]),
        k > 0 ==> !drop(s[k - 1]),
    ensures
        trim_end_by(s, drop) == s.take(k),
    decreases s.len(),
{
    if k < s.len() {
        assert(drop(s[s.len() - 1]));
        let rest = s.drop_last();
        assert forall|j: int| k <= j < rest.len() implies drop(#[trigger] rest[j]) by {
            assert(rest[j] == s[j]);
        }
        lemma_trim_end_by(rest, drop, k);
        assert(rest.take(k) == s.take(k));
    } else {
        assert(s.take(k) == s);
    }
}

/// What is left once the ends `..from` and `to..` have been dropped.
pub(crate) proof fn lemma_trim_by(s: Seq<char>, drop: spec_fn(char) -> bool, from: int, to: int)
    requires
        0 <= from <= to <= s.len(),
        forall|j: int| 0 <= j < from ==> drop(#[trigger] s[j]),
        forall|j: int| to <= j < s.len() ==> drop(#[trigger] s[j]),
        from < to ==> !drop(s[from]) && !drop(s[to - 1]),
        from == to ==> to == s.len(),
    ensures
        trim_by(s, drop) == s.subrange(from, to),
{
    lemma_trim_start_by(s, drop, from);
    let rest = s.skip(from);
    assert forall|j: int| to - from <= j < rest.len() implies drop(#[trigger] rest[j]) by {
        assert(rest[j] == s[j + from]);
    }
    lemma_trim_end_by(rest, drop, to - from);
    assert(rest.take(to - from) == s.subrange(from, to));
}

/// `s` without white space at either end.
pub fn trimmed(s: &str) -> (out: String)
    ensures
        out@ == trim(s@),
{
    let cs = chars_of(s);
    let mut from: usize = 0;
    while from < cs.len() && cs[from].is_whitespace()
        invariant
            0 <= from <= cs@.len(),
            forall|j: int| 0 <= j < from ==> is_space(#[trigger] cs@[j]),
        decreases cs.len() - from,
    {
        from += 1;
    }
    let mut to: usize = cs.len();
    while to > from && cs[to - 1].is_whitespace()
        invariant
            from <= to <= cs@.len(),
            forall|j: int| to <= j < cs@.len() ==> is_space(#[trigger] cs@[j]),
            from < cs@.len() ==> !is_space(cs@[from as int]),
        decreases to,
    {
        to -= 1;
    }
    proof {
        lemma_trim_by(cs@, |c: char| is_space(c), from as int, to as int);
    }
    text_of(&cs, from, to)
}

/// Whether `s` holds nothing but white space.
pub open spec fn all_space(s: Seq<char>) -> bool {
    forall|i: int| 0 <= i < s.len() ==> is_space(#[trigger] s[i])
}

/// Whether `s` holds nothing but white space.
pub fn is_blank(s: &str) -> (blank: bool)
    ensures
        blank == all_space(s@),
        blank == (trim(s@).len() == 0),
{
    let rest = trimmed(s);
    proof {
        lemma_trim_of_blank(s@);
    }
    rest.as_str().is_empty()
}

proof fn lemma_trim_start_empty(s: Seq<char>)
    requires
        trim_start_by(s, |c: char| is_space(c)).len() == 0,
    ensures
        all_space(s),
    decreases s.len(),
{
    if s.len() > 0 {
        lemma_trim_start_empty(s.drop_first());
        assert forall|i: int| 0 <= i < s.len() implies is_space(#[trigger] s[i]) by {
            if i > 0 {
                assert(s[i] == s.drop_first()[i - 1]);
            }
        }
    }
}

proof fn lemma_trim_end_empty(s: Seq<char>)
    requires
        trim_end_by(s, |c: char| is_space(c)).len() == 0,
    ensures
        all_space(s),
    decreases s.len(),
{
    if s.len() > 0 {
        lemma_trim_end_empty(s.drop_last());
        assert forall|i: int| 0 <= i < s.len() implies is_space(#[trigger] s[i]) by {
            if i < s.len() - 1 {
                assert(s[i] == s.drop_last()[i]);
            }
        }
    }
}

proof fn lemma_trim_start_keeps_first(s: Seq<char>)
    ensures
        ({
            let rest = trim_start_by(s, |c: char| is_space(c));
            rest.len() > 0 ==> !is_space(rest[0])
        }),
    decreases s.len(),
{
    if s.len() > 0 {
        lemma_trim_start_keeps_first(s.drop_first());
    }
}

/// Trimming leaves nothing exactly of a text that is all white space.
pub proof fn lemma_trim_of_blank(s: Seq<char>)
    ensures
        (trim(s).len() == 0) == all_space(s),
{
    let drop = |c: char| is_space(c);
    let rest = trim_start_by(s, drop);
    if all_space(s) {
        lemma_trim_start_by(s, drop, s.len() as int);
        assert(rest.len() == 0);
    }
    if trim(s).len() == 0 {
        lemma_trim_end_empty(rest);
        lemma_trim_start_keeps_first(s);
        if rest.len() > 0 {
            assert(is_space(rest[0]));
        }
        lemma_trim_start_empty(s);
    }
}

/// Trimming a trimmed text changes nothing.
pub proof fn lemma_trim_twice(s: Seq<char>)
    ensures
        trim(trim(s)) == trim(s),
{
    let drop = |c: char| is_space(c);
    lemma_trim_start_keeps_first(s);
    let rest = trim_start_by(s, drop);
    let out = trim(s);
    lemma_trim_end_shape(rest);
    if out.len() > 0 {
        assert(out[0] == rest[0]);
    }
    assert(trim_start_by(out, drop) == out);
    assert(trim_end_by(out, drop) == out);
}

proof fn lemma_trim_end_shape(s: Seq<char>)
    ensures
        ({
            let out = trim_end_by(s, |c: char| is_space(c));
            &&& out.len() <= s.len()
            &&& out == s.take(out.len() as int)
            &&& out.len() > 0 ==> !is_space(out.last())
        }),
    decreases s.len(),
{
    let drop = |c: char| is_space(c);
    let out = trim_end_by(s, drop);
    if s.len() > 0 && drop(s.last()) {
        lemma_trim_end_shape(s.drop_last());
        assert(s.drop_last().take(out.len() as int) == s.take(out.len() as int));
    } else {
        assert(s.take(s.len() as int) == s);
    }
}

/// A text has no words exactly when it is all white space.
pub proof fn law_blank_text_has_no_words(s: Seq<char>)
    ensures
        (words(s).len() == 0) == all_space(s),
    decreases s.len(),
{
    if s.len() > 0 {
        law_blank_text_has_no_words(s.drop_last());
        if all_space(s) {
            assert forall|i: int| 0 <= i < s.len() - 1 implies is_space(
                #[trigger] s.drop_last()[i],
            ) by {
                assert(s.drop_last()[i] == s[i]);
            }
            assert(is_space(s[s.len() - 1]));
        }
        if words(s).len() == 0 {
            assert(is_space(s.last()));
            assert forall|i: int| 0 <= i < s.len() implies is_space(#[trigger] s[i]) by {
                if i < s.len() - 1 {
                    assert(s[i] == s.drop_last()[i]);
                }
            }
        }
    }
}

/// Each run of a text is non-empty and free of separators, and a text that
/// does not end in a separator has a run.
pub proof fn lemma_runs_are_runs(s: Seq<char>, sep: Separator)
    ensures
        forall|i: int| 0 <= i < runs(s, sep).len() ==> is_run(#[trigger] runs(s, sep)[i], sep),
        s.len() > 0 && !sep.separates(s.last()) ==> runs(s, sep).len() > 0,
    decreases s.len(),
{
    if s.len() > 0 {
        let before = s.drop_last();
        lemma_runs_are_runs(before, sep);
        let found = runs(before, sep);
        assert forall|i: int| 0 <= i < runs(s, sep).len() implies is_run(
            #[trigger] runs(s, sep)[i],
            sep,
        ) by {
            if sep.separates(s.last()) {
                assert(runs(s, sep)[i] == found[i]);
            } else if before.len() == 0 || sep.separates(before.last()) {
                if i < found.len() {
                    assert(runs(s, sep)[i] == found[i]);
                } else {
                    assert(runs(s, sep)[i] == seq![s.last()]);
                }
            } else if i < found.len() - 1 {
                assert(runs(s, sep)[i] == found[i]);
            } else {
                let w = found.last();
                assert(is_run(found[found.len() - 1], sep));
                assert(runs(s, sep)[i] == w.push(s.last()));
                assert forall|j: int| 0 <= j < w.len() + 1 implies !sep.separates(
                    #[trigger] w.push(s.last())[j],
                ) by {
                    if j < w.len() {
                        assert(w.push(s.last())[j] == w[j]);
                    }
                }
            }
        }
    }
}

/// Each word of a text is non-empty and free of white space.
pub proof fn lemma_words_are_words(s: Seq<char>)
    ensures
        forall|i: int| 0 <= i < words(s).len() ==> is_word(#[trigger] words(s)[i]),
{
    lemma_runs_are_runs(s, Separator::Space);
}

/// A word written after white space, or at the start, is one more word.
proof fn lemma_words_append(s: Seq<char>, w: Seq<char>)
    requires
        is_word(w),
        s.len() == 0 || is_space(s.last()),
    ensures
        words(s + w) == words(s).push(w),
    decreases w.len(),
{
    let whole = s + w;
    assert(w[w.len() - 1] == w.last());
    assert(whole.last() == w.last());
    assert(whole.drop_last() == s + w.drop_last());
    if w.len() == 1 {
        assert(whole.drop_last() == s);
        assert(w == seq![w.last()]);
    } else {
        let shorter = w.drop_last();
        assert forall|i: int| 0 <= i < shorter.len() implies !is_space(#[trigger] shorter[i]) by {
            assert(shorter[i] == w[i]);
        }
        lemma_words_append(s, shorter);
        assert((s + shorter).last() == shorter.last());
        assert(shorter[shorter.len() - 1] == shorter.last());
        assert(words(s).push(shorter).drop_last() == words(s));
        assert(shorter.push(w.last()) == w);
    }
}

/// Splitting undoes joining: words joined by single spaces are read back
/// as the same words.
pub proof fn lemma_words_of_join(list: Seq<Seq<char>>)
    requires
        forall|i: int| 0 <= i < list.len() ==> is_word(#[trigger] list[i]),
    ensures
        words(join(list, gap())) == list,
    decreases list.len(),
{
    if list.len() == 0 {
    } else if list.len() == 1 {
        assert(is_word(list[0]));
        lemma_words_append(seq![], list[0]);
        assert(Seq::<char>::empty() + list[0] == list[0]);
        assert(words(Seq::<char>::empty()) == Seq::<Seq<char>>::empty());
        assert(list == seq![list[0]]);
    } else {
        let before = list.drop_last();
        assert forall|i: int| 0 <= i < before.len() implies is_word(#[trigger] before[i]) by {
            assert(before[i] == list[i]);
        }
        lemma_words_of_join(before);
        let head = join(before, gap()) + gap();
        assert(head.last() == ' ');
        assert(head.drop_last() == join(before, gap()));
        assert(words(head) == words(join(before, gap())));
        assert(is_word(list[list.len() - 1]));
        lemma_words_append(head, list.last());
        assert(before.push(list.last()) == list);
    }
}

/// Some stretch of `places` holds position `k`.
spec fn is_inside(places: Seq<(int, int)>, k: int) -> bool {
    exists|i: int| 0 <= i < places.len() && (#[trigger] places[i]).0 <= k < places[i].1
}

/// `places` are the stretches of `s` that `list` holds.
spec fn are_places(s: Seq<char>, list: Seq<Seq<char>>, places: Seq<(int, int)>) -> bool {
    &&& places.len() == list.len()
    &&& forall|i: int|
        0 <= i < places.len() ==> 0 <= (#[trigger] places[i]).0 < places[i].1 <= s.len()
            && list[i] == s.subrange(places[i].0, places[i].1)
    &&& forall|i: int, j: int|
        0 <= i < j < places.len() ==> (#[trigger] places[i]).1 < (#[trigger] places[j]).0
}

/// One more character leaves the places where they are.
proof fn lemma_places_in_more(s: Seq<char>, list: Seq<Seq<char>>, places: Seq<(int, int)>)
    requires
        s.len() > 0,
        are_places(s.drop_last(), list, places),
    ensures
        are_places(s, list, places),
{
    let before = s.drop_last();
    assert forall|i: int| 0 <= i < places.len() implies 0 <= (#[trigger] places[i]).0 < places[i].1
        <= s.len() && list[i] == s.subrange(places[i].0, places[i].1) by {
        assert(s.subrange(places[i].0, places[i].1) =~= before.subrange(
            places[i].0,
            places[i].1,
        ));
    }
}

proof fn lemma_place_pushed(
    s: Seq<char>,
    list: Seq<Seq<char>>,
    places: Seq<(int, int)>,
    w: Seq<char>,
    place: (int, int),
)
    requires
        are_places(s, list, places),
        0 <= place.0 < place.1 <= s.len(),
        w == s.subrange(place.0, place.1),
        places.len() > 0 ==> places.last().1 < place.0,
    ensures
        are_places(s, list.push(w), places.push(place)),
        forall|k: int|
            is_inside(places.push(place), k) <==> is_inside(places, k) || place.0 <= k < place.1,
{
    let more = places.push(place);
    assert forall|i: int, j: int| 0 <= i < j < more.len() implies (#[trigger] more[i]).1 < (
    #[trigger] more[j]).0 by {
        if j == places.len() && i < places.len() - 1 {
            assert(places[i].1 < places[places.len() - 1].0);
        }
    }
    assert forall|k: int|
        is_inside(more, k) <==> is_inside(places, k) || place.0 <= k < place.1 by {
        if is_inside(places, k) {
            let i = choose|i: int|
                0 <= i < places.len() && (#[trigger] places[i]).0 <= k < places[i].1;
            assert(more[i] == places[i]);
        }
        if place.0 <= k < place.1 {
            assert(more[places.len() as int] == place);
        }
        if is_inside(more, k) {
            let i = choose|i: int| 0 <= i < more.len() && (#[trigger] more[i]).0 <= k < more[i].1;
            if i < places.len() {
                assert(places[i] == more[i]);
            }
        }
    }
}

proof fn lemma_place_dropped(s: Seq<char>, list: Seq<Seq<char>>, places: Seq<(int, int)>)
    requires
        are_places(s, list, places),
        places.len() > 0,
    ensures
        are_places(s, list.drop_last(), places.drop_last()),
        forall|k: int|
            is_inside(places, k) <==> is_inside(places.drop_last(), k) || places.last().0 <= k
                < places.last().1,
        places.len() > 1 ==> places.drop_last().last().1 < places.last().0,
{
    let less = places.drop_last();
    assert forall|k: int|
        is_inside(places, k) <==> is_inside(less, k) || places.last().0 <= k < places.last().1 by {
        if is_inside(less, k) {
            let i = choose|i: int| 0 <= i < less.len() && (#[trigger] less[i]).0 <= k < less[i].1;
            assert(places[i] == less[i]);
        }
        if places.last().0 <= k < places.last().1 {
            assert(places[places.len() - 1] == places.last());
        }
        if is_inside(places, k) {
            let i = choose|i: int|
                0 <= i < places.len() && (#[trigger] places[i]).0 <= k < places[i].1;
            if i < less.len() {
                assert(less[i] == places[i]);
            }
        }
    }
}

proof fn lemma_places(s: Seq<char>, sep: Separator) -> (places: Seq<(int, int)>)
    ensures
        are_places(s, runs(s, sep), places),
        forall|k: int|
            0 <= k < s.len() ==> (sep.separates(#[trigger] s[k]) <==> !is_inside(places, k)),
        forall|k: int| is_inside(places, k) ==> 0 <= k < s.len(),
    decreases s.len(),
{
    if s.len() == 0 {
        seq![]
    } else {
        let before = s.drop_last();
        let found = runs(before, sep);
        let n = before.len() as int;
        let there = lemma_places(before, sep);
        lemma_places_in_more(s, found, there);
        assert forall|k: int| 0 <= k < n implies (sep.separates(#[trigger] s[k]) <==> !is_inside(
            there,
            k,
        )) by {
            assert(before[k] == s[k]);
        }
        assert(s[n] == s.last());
        assert(!is_inside(there, n));
        if sep.separates(s.last()) {
            assert forall|k: int| 0 <= k < s.len() implies (sep.separates(#[trigger] s[k])
                <==> !is_inside(there, k)) by {}
            there
        } else if before.len() == 0 || sep.separates(before.last()) {
            if there.len() > 0 && there.last().1 == n {
                assert(there[there.len() - 1].0 <= n - 1 < there[there.len() - 1].1);
                assert(is_inside(there, n - 1));
                assert(before[n - 1] == before.last());
            }
            assert(s.subrange(n, n + 1) =~= seq![s.last()]);
            lemma_place_pushed(s, found, there, seq![s.last()], (n, n + 1));
            let places = there.push((n, n + 1));
            assert forall|k: int| 0 <= k < s.len() implies (sep.separates(#[trigger] s[k])
                <==> !is_inside(places, k)) by {
                assert(is_inside(places, k) <==> is_inside(there, k) || n <= k < n + 1);
            }
            places
        } else {
            assert(before[n - 1] == before.last());
            assert(is_inside(there, n - 1));
            let i = choose|i: int|
                0 <= i < there.len() && (#[trigger] there[i]).0 <= n - 1 < there[i].1;
            let last = there.len() - 1;
            if i < last {
                assert(there[i].1 < there[last].0);
            }
            assert(there[last].1 == n);
            let from = there[last].0;
            lemma_place_dropped(s, found, there);
            let w = found.last().push(s.last());
            assert(found[last] == s.subrange(from, n));
            assert(s.subrange(from, n + 1) =~= w);
            lemma_place_pushed(s, found.drop_last(), there.drop_last(), w, (from, n + 1));
            let places = there.drop_last().push((from, n + 1));
            assert forall|k: int| 0 <= k < s.len() implies (sep.separates(#[trigger] s[k])
                <==> !is_inside(places, k)) by {
                assert(is_inside(there, k) <==> is_inside(there.drop_last(), k) || from <= k < n);
                assert(is_inside(places, k) <==> is_inside(there.drop_last(), k) || from <= k < n
                    + 1);
            }
            places
        }
    }
}

/// What splitting finds: each run is a stretch of the text, in order, with at
/// least one character between two of them, and the characters outside all of
/// them are exactly the separators. So no character of a word is lost, and no
/// word is cut in two.
pub proof fn law_runs_are_the_stretches_between_separators(s: Seq<char>, sep: Separator) -> (places:
    Seq<(int, int)>)
    ensures
        places.len() == runs(s, sep).len(),
        forall|i: int|
            0 <= i < places.len() ==> 0 <= (#[trigger] places[i]).0 < places[i].1 <= s.len()
                && runs(s, sep)[i] == s.subrange(places[i].0, places[i].1),
        forall|i: int, j: int|
            0 <= i < j < places.len() ==> (#[trigger] places[i]).1 < (#[trigger] places[j]).0,
        forall|k: int|
            0 <= k < s.len() ==> (sep.separates(#[trigger] s[k]) <==> !(exists|i: int|
                0 <= i < places.len() && (#[trigger] places[i]).0 <= k < places[i].1)),
{
    let places = lemma_places(s, sep);
    assert forall|k: int| 0 <= k < s.len() implies (sep.separates(#[trigger] s[k]) <==> !(exists|
        i: int,
    |
        0 <= i < places.len() && (#[trigger] places[i]).0 <= k < places[i].1)) by {
        assert(sep.separates(s[k]) <==> !is_inside(places, k));
    }
    places
}

/// What separates: white space for one kind, the one character for the other.
pub proof fn law_separators(c: char, mark: char)
    ensures
        Separator::Space.separates(c) <==> is_space(c),
        Separator::Mark(mark).separates(c) <==> c == mark,
        words(seq![c]).len() == 0 <==> is_space(c),
{
    assert(seq![c].drop_last() =~= seq![]);
    assert(seq![c].last() == c);
    assert(runs(seq![], Separator::Space).len() == 0);
}

/// Joining puts the separator between two lists as it does between two texts,
/// and leaves a single text alone.
pub proof fn law_joining_adds_up(
    first: Seq<Seq<char>>,
    second: Seq<Seq<char>>,
    one: Seq<char>,
    sep: Seq<char>,
)
    ensures
        join(seq![one], sep) == one,
        join(seq![], sep).len() == 0,
        gap().len() == 1 && gap()[0] == ' ',
        first.len() > 0 && second.len() > 0 ==> join(first + second, sep) == join(first, sep) + sep
            + join(second, sep),
    decreases second.len(),
{
    if first.len() > 0 && second.len() > 0 {
        let all = first + second;
        let rest = second.drop_last();
        assert(all.drop_last() =~= first + rest);
        assert(all.last() == second.last());
        law_joining_adds_up(first, rest, one, sep);
        if rest.len() == 0 {
            assert(first + rest =~= first);
            assert(second =~= seq![second[0]]);
            assert(join(second, sep) == second[0]);
        } else {
            assert(join(all, sep) =~= join(first, sep) + sep + join(second, sep));
        }
    }
}

/// What trimming drops: all at either end for which `drop` holds, and nothing
/// else.
pub proof fn law_trimming_drops_the_ends(s: Seq<char>, drop: spec_fn(char) -> bool) -> (ends: (
    int,
    int,
))
    ensures
        0 <= ends.0 <= ends.1 <= s.len(),
        trim_by(s, drop) == s.subrange(ends.0, ends.1),
        forall|j: int| 0 <= j < ends.0 ==> drop(#[trigger] s[j]),
        forall|j: int| ends.1 <= j < s.len() ==> drop(#[trigger] s[j]),
        ends.0 < ends.1 ==> !drop(s[ends.0]) && !drop(s[ends.1 - 1]),
{
    let from = lemma_first_kept(s, drop);
    lemma_trim_start_by(s, drop, from);
    let rest = s.skip(from);
    let kept = lemma_last_kept(rest, drop);
    lemma_trim_end_by(rest, drop, kept);
    assert(rest.take(kept) =~= s.subrange(from, from + kept));
    assert forall|j: int| from + kept <= j < s.len() implies drop(#[trigger] s[j]) by {
        assert(rest[j - from] == s[j]);
    }
    if kept > 0 {
        assert(rest[kept - 1] == s[from + kept - 1]);
    }
    (from, from + kept)
}

proof fn lemma_first_kept(s: Seq<char>, drop: spec_fn(char) -> bool) -> (k: int)
    ensures
        0 <= k <= s.len(),
        forall|j: int| 0 <= j < k ==> drop(#[trigger] s[j]),
        k < s.len() ==> !drop(s[k]),
    decreases s.len(),
{
    if s.len() == 0 || !drop(s[0]) {
        0
    } else {
        let rest = s.drop_first();
        let k = lemma_first_kept(rest, drop);
        assert forall|j: int| 0 <= j < k + 1 implies drop(#[trigger] s[j]) by {
            if j > 0 {
                assert(rest[j - 1] == s[j]);
            }
        }
        k + 1
    }
}

proof fn lemma_last_kept(s: Seq<char>, drop: spec_fn(char) -> bool) -> (k: int)
    ensures
        0 <= k <= s.len(),
        forall|j: int| k <= j < s.len() ==> drop(#[trigger] s[j]),
        k > 0 ==> !drop(s[k - 1]),
    decreases s.len(),
{
    if s.len() == 0 || !drop(s.last()) {
        s.len() as int
    } else {
        let rest = s.drop_last();
        let k = lemma_last_kept(rest, drop);
        assert forall|j: int| k <= j < s.len() implies drop(#[trigger] s[j]) by {
            if j < s.len() - 1 {
                assert(rest[j] == s[j]);
            }
        }
        k
    }
}

/// A trimmed text is the text from its first character that is no white space
/// to its last, and nothing where there is none.
pub proof fn law_trimming_keeps_the_middle(s: Seq<char>) -> (ends: (int, int))
    ensures
        0 <= ends.0 <= ends.1 <= s.len(),
        trim(s) == s.subrange(ends.0, ends.1),
        forall|j: int| 0 <= j < ends.0 ==> is_space(#[trigger] s[j]),
        forall|j: int| ends.1 <= j < s.len() ==> is_space(#[trigger] s[j]),
        ends.0 < ends.1 ==> !is_space(s[ends.0]) && !is_space(s[ends.1 - 1]),
        all_space(s) <==> ends.0 == ends.1,
{
    let ends = law_trimming_drops_the_ends(s, |c: char| is_space(c));
    lemma_trim_of_blank(s);
    ends
}

/// The texts of strings are theirs one by one.
pub proof fn law_texts_are_those_of_the_strings(list: Seq<String>, i: int)
    ensures
        texts(list).len() == list.len(),
        0 <= i < list.len() ==> texts(list)[i] == list[i]@,
{
}

} // verus!
