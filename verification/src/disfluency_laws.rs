//! What stripping disfluencies guarantees of the text it leaves.

use vstd::prelude::*;

use crate::chars::{
    all_ascii, ascii_lower, ascii_upper, is_alnum, is_ascii_char, is_letter, is_space, is_upper,
    lower, upper,
};
use crate::disfluency::{
    capitalized, core_end, core_of, core_start, ends_in_punctuation, first_letter, fragments,
    is_filler_form, is_legitimate_double, is_stutter, keep_token, kept_tokens, last_alnum_end, lemma_core_start,
    lemma_last_alnum_end, prefix_of, says_again, starts_capitalized, stripped, suffix_of,
    unstuttered,
};
use crate::words::{
    gap, is_run, is_word, join, lemma_runs_are_runs, lemma_words_are_words, lemma_words_of_join,
    runs, words, Separator,
};

verus! {

/// Whether a word begins and ends in a letter or digit.
pub open spec fn has_alnum_ends(core: Seq<char>) -> bool {
    core.len() > 0 && is_alnum(core[0]) && is_alnum(core.last())
}

spec fn has_no_alnum(s: Seq<char>) -> bool {
    forall|j: int| 0 <= j < s.len() ==> !is_alnum(#[trigger] s[j])
}

proof fn lemma_core_start_shape(s: Seq<char>)
    ensures
        core_start(s) <= s.len(),
        forall|j: int| 0 <= j < core_start(s) ==> !is_alnum(#[trigger] s[j]),
        core_start(s) < s.len() ==> is_alnum(s[core_start(s) as int]),
    decreases s.len(),
{
    if s.len() > 0 && !is_alnum(s[0]) {
        let rest = s.drop_first();
        lemma_core_start_shape(rest);
        assert forall|j: int| 0 <= j < core_start(s) implies !is_alnum(#[trigger] s[j]) by {
            if j > 0 {
                assert(rest[j - 1] == s[j]);
            }
        }
        if core_start(s) < s.len() {
            assert(rest[core_start(rest) as int] == s[core_start(s) as int]);
        }
    }
}

proof fn lemma_last_alnum_end_shape(s: Seq<char>)
    ensures
        last_alnum_end(s) <= s.len(),
        forall|j: int| last_alnum_end(s) <= j < s.len() ==> !is_alnum(#[trigger] s[j]),
        last_alnum_end(s) > 0 ==> is_alnum(s[last_alnum_end(s) - 1]),
    decreases s.len(),
{
    if s.len() > 0 && !is_alnum(s.last()) {
        let rest = s.drop_last();
        lemma_last_alnum_end_shape(rest);
        assert forall|j: int| last_alnum_end(s) <= j < s.len() implies !is_alnum(
            #[trigger] s[j],
        ) by {
            if j < s.len() - 1 {
                assert(rest[j] == s[j]);
            }
        }
        if last_alnum_end(s) > 0 {
            assert(rest[last_alnum_end(s) - 1] == s[last_alnum_end(s) - 1]);
        }
    }
}

/// A token is its punctuation, its word and its punctuation again; the word
/// is empty only where the token is all punctuation.
pub proof fn law_affixes_make_the_token(token: Seq<char>)
    ensures
        prefix_of(token) + core_of(token) + suffix_of(token) == token,
        forall|j: int| 0 <= j < prefix_of(token).len() ==> !is_alnum(#[trigger] prefix_of(token)[j]),
        forall|j: int| 0 <= j < suffix_of(token).len() ==> !is_alnum(#[trigger] suffix_of(token)[j]),
        core_of(token).len() > 0 ==> has_alnum_ends(core_of(token)),
        core_of(token).len() == 0 ==> prefix_of(token) == token,
{
    lemma_core_start_shape(token);
    lemma_last_alnum_end_shape(token);
    let a = core_start(token) as int;
    let b = core_end(token) as int;
    if a < token.len() {
        if last_alnum_end(token) <= a {
            assert(!is_alnum(token[a]));
        }
    }
    assert(prefix_of(token) + core_of(token) + suffix_of(token) == token);
    assert forall|j: int| 0 <= j < prefix_of(token).len() implies !is_alnum(
        #[trigger] prefix_of(token)[j],
    ) by {
        assert(prefix_of(token)[j] == token[j]);
    }
    assert forall|j: int| 0 <= j < suffix_of(token).len() implies !is_alnum(
        #[trigger] suffix_of(token)[j],
    ) by {
        assert(suffix_of(token)[j] == token[b + j]);
    }
    if core_of(token).len() > 0 {
        assert(core_of(token)[0] == token[a]);
        assert(core_of(token).last() == token[b - 1]);
    } else {
        assert(prefix_of(token) == token);
    }
}

proof fn lemma_core_of_parts(p: Seq<char>, c: Seq<char>, x: Seq<char>)
    requires
        has_no_alnum(p),
        has_no_alnum(x),
        has_alnum_ends(c),
    ensures
        core_of(p + c + x) == c,
{
    let s = p + c + x;
    let a = p.len() as int;
    let b = p.len() + c.len();
    assert forall|j: int| 0 <= j < a implies !is_alnum(#[trigger] s[j]) by {
        assert(s[j] == p[j]);
    }
    assert(s[a] == c[0]);
    lemma_core_start(s, a);
    assert forall|j: int| b <= j < s.len() implies !is_alnum(#[trigger] s[j]) by {
        assert(s[j] == x[j - b]);
    }
    assert(s[b - 1] == c.last());
    lemma_last_alnum_end(s, b as int);
    assert(s.subrange(a, b as int) == c);
}

/// Whether the word finally said of each token begins with a letter or
/// digit, as it does in any token of plain ASCII.
pub open spec fn words_begin_plainly(tokens: Seq<Seq<char>>) -> bool {
    forall|i: int|
        0 <= i < tokens.len() ==> {
            let core = unstuttered(core_of(#[trigger] tokens[i]));
            core.len() > 0 ==> is_alnum(core[0])
        }
}

/// Whether `token` has nothing to strip where it stands after `kept`: it has no
/// word, or its word is no filler, no stutter, and does not say the token
/// before it again.
pub open spec fn is_settled(kept: Seq<Seq<char>>, token: Seq<char>) -> bool {
    let core = core_of(token);
    core.len() > 0 ==> {
        &&& !is_filler_form(lower(core))
        &&& !is_stutter(fragments(core))
        &&& !says_again(kept, core)
    }
}

/// No kept token is a filler or a stutter, and none says the one before it
/// again.
pub open spec fn is_clean(kept: Seq<Seq<char>>) -> bool {
    forall|i: int| 0 <= i < kept.len() ==> is_settled(kept.take(i), #[trigger] kept[i])
}

/// The word finally said ends as the word did.
proof fn lemma_unstuttered_end(core: Seq<char>)
    requires
        has_alnum_ends(core),
    ensures
        unstuttered(core).len() > 0,
        unstuttered(core).last() == core.last(),
{
    let sep = Separator::Mark('-');
    let parts = runs(core, sep);
    assert(!sep.separates(core.last()));
    lemma_runs_are_runs(core, sep);
    assert(parts.len() > 0);
    assert(parts.last().last() == core.last());
    assert(is_run(parts[parts.len() - 1], sep));
}

/// A text without a separator is one run.
proof fn lemma_runs_of_run(w: Seq<char>, sep: Separator)
    requires
        is_run(w, sep),
    ensures
        runs(w, sep) == seq![w],
    decreases w.len(),
{
    let before = w.drop_last();
    if before.len() > 0 {
        assert forall|i: int| 0 <= i < before.len() implies !sep.separates(#[trigger] before[i]) by {
            assert(before[i] == w[i]);
        }
        lemma_runs_of_run(before, sep);
        assert(before.last() == w[w.len() - 2]);
        assert(runs(w, sep) =~= seq![before.push(w.last())]);
        assert(before.push(w.last()) =~= w);
    } else {
        assert(runs(before, sep).len() == 0);
        assert(runs(w, sep) =~= seq![seq![w.last()]]);
        assert(seq![w.last()] =~= w);
    }
}

/// The word finally said is not stuttered again.
proof fn lemma_unstuttered_is_settled(core: Seq<char>)
    ensures
        !is_stutter(fragments(unstuttered(core))),
{
    let sep = Separator::Mark('-');
    let parts = fragments(core);
    if is_stutter(parts) {
        lemma_runs_are_runs(core, sep);
        assert(is_run(parts[parts.len() - 1], sep));
        lemma_runs_of_run(parts.last(), sep);
    }
}

proof fn lemma_no_alnum_no_core(s: Seq<char>)
    requires
        has_no_alnum(s),
    ensures
        core_of(s).len() == 0,
{
    law_affixes_make_the_token(s);
    lemma_core_start_shape(s);
    lemma_last_alnum_end_shape(s);
    if core_of(s).len() > 0 {
        assert(core_of(s)[0] == s[core_start(s) as int]);
    }
}

proof fn lemma_clean_drop_last(kept: Seq<Seq<char>>)
    requires
        is_clean(kept),
        kept.len() > 0,
    ensures
        is_clean(kept.drop_last()),
        is_settled(kept.drop_last(), kept.last()),
{
    let before = kept.drop_last();
    assert forall|i: int| 0 <= i < before.len() implies is_settled(
        before.take(i),
        #[trigger] before[i],
    ) by {
        assert(before.take(i) =~= kept.take(i));
        assert(before[i] == kept[i]);
    }
    let n = kept.len() - 1;
    assert(kept.take(n) =~= before);
    assert(is_settled(kept.take(n), kept[n]));
}

proof fn lemma_clean_push(kept: Seq<Seq<char>>, token: Seq<char>)
    requires
        is_clean(kept),
        is_settled(kept, token),
    ensures
        is_clean(kept.push(token)),
{
    let out = kept.push(token);
    assert forall|i: int| 0 <= i < out.len() implies is_settled(
        out.take(i),
        #[trigger] out[i],
    ) by {
        assert(out.take(i) =~= kept.take(i));
        if i < kept.len() {
            assert(out[i] == kept[i]);
        } else {
            assert(kept.take(i) =~= kept);
        }
    }
}

proof fn lemma_clean_after_suffix(kept: Seq<Seq<char>>, suffix: Seq<char>)
    requires
        is_clean(kept),
        kept.len() > 0,
        !ends_in_punctuation(kept.last()),
        has_no_alnum(suffix),
    ensures
        is_clean(kept.drop_last().push(kept.last() + suffix)),
{
    let last = kept.last();
    lemma_clean_drop_last(kept);
    law_affixes_make_the_token(last);
    lemma_core_start_shape(last);
    lemma_last_alnum_end_shape(last);
    if core_of(last).len() == 0 {
        if last.len() > 0 {
            assert(prefix_of(last)[last.len() - 1] == last.last());
        }
        assert(last + suffix =~= suffix);
        lemma_no_alnum_no_core(suffix);
    } else {
        assert(last_alnum_end(last) == last.len());
        assert(suffix_of(last) == Seq::<char>::empty());
        assert(last + suffix == prefix_of(last) + core_of(last) + suffix);
        lemma_core_of_parts(prefix_of(last), core_of(last), suffix);
    }
    lemma_clean_push(kept.drop_last(), last + suffix);
}

/// What is kept holds no filler and no stutter, and no word twice in a row but
/// those that English doubles.
pub proof fn law_kept_tokens_are_clean(tokens: Seq<Seq<char>>)
    requires
        words_begin_plainly(tokens),
    ensures
        is_clean(kept_tokens(tokens)),
    decreases tokens.len(),
{
    if tokens.len() > 0 {
        let before = tokens.drop_last();
        assert forall|i: int| 0 <= i < before.len() implies ({
            let core = unstuttered(core_of(#[trigger] before[i]));
            core.len() > 0 ==> is_alnum(core[0])
        }) by {
            assert(before[i] == tokens[i]);
        }
        law_kept_tokens_are_clean(before);
        let kept = kept_tokens(before);
        let token = tokens[tokens.len() - 1];
        law_affixes_make_the_token(token);
        let core = unstuttered(core_of(token));
        let suffix = suffix_of(token);
        if core_of(token).len() == 0 {
            lemma_clean_push(kept, token);
        } else if is_filler_form(lower(core)) {
            if suffix.len() > 0 && kept.len() > 0 && !ends_in_punctuation(kept.last()) {
                lemma_clean_after_suffix(kept, suffix);
            }
        } else {
            lemma_unstuttered_end(core_of(token));
            lemma_unstuttered_is_settled(core_of(token));
            let rebuilt = prefix_of(token) + core + suffix;
            lemma_core_of_parts(prefix_of(token), core, suffix);
            if says_again(kept, core) {
                lemma_clean_drop_last(kept);
                lemma_clean_push(kept.drop_last(), rebuilt);
            } else {
                lemma_clean_push(kept, rebuilt);
            }
        }
    }
}

/// Tokens that have nothing to strip are kept as they are.
proof fn lemma_clean_tokens_are_kept(tokens: Seq<Seq<char>>)
    requires
        is_clean(tokens),
    ensures
        kept_tokens(tokens) == tokens,
    decreases tokens.len(),
{
    if tokens.len() > 0 {
        lemma_clean_drop_last(tokens);
        lemma_clean_tokens_are_kept(tokens.drop_last());
        law_affixes_make_the_token(tokens.last());
        assert(tokens.drop_last().push(tokens.last()) =~= tokens);
    } else {
        assert(tokens =~= seq![]);
    }
}

/// No kept token is empty.
proof fn lemma_kept_tokens_are_solid(tokens: Seq<Seq<char>>)
    requires
        forall|i: int| 0 <= i < tokens.len() ==> (#[trigger] tokens[i]).len() > 0,
    ensures
        forall|i: int|
            0 <= i < kept_tokens(tokens).len() ==> (#[trigger] kept_tokens(tokens)[i]).len() > 0,
    decreases tokens.len(),
{
    if tokens.len() > 0 {
        let before = tokens.drop_last();
        assert forall|i: int| 0 <= i < before.len() implies (#[trigger] before[i]).len() > 0 by {
            assert(before[i] == tokens[i]);
        }
        lemma_kept_tokens_are_solid(before);
        let token = tokens[tokens.len() - 1];
        law_affixes_make_the_token(token);
        if core_of(token).len() > 0 {
            lemma_unstuttered_end(core_of(token));
        }
        let kept = kept_tokens(before);
        let out = kept_tokens(tokens);
        assert forall|i: int| 0 <= i < out.len() implies (#[trigger] out[i]).len() > 0 by {
            if i < kept.len() {
                assert(kept[i].len() > 0);
            }
        }
    }
}

/// Whether `p` holds of every character of `s`.
pub open spec fn every(s: Seq<char>, p: spec_fn(char) -> bool) -> bool {
    forall|i: int| 0 <= i < s.len() ==> p(#[trigger] s[i])
}

/// Whether `p` holds of every character of every text of `list`.
pub open spec fn every_of(list: Seq<Seq<char>>, p: spec_fn(char) -> bool) -> bool {
    forall|i: int| 0 <= i < list.len() ==> every(#[trigger] list[i], p)
}

proof fn lemma_every_of_runs(s: Seq<char>, sep: Separator, p: spec_fn(char) -> bool)
    requires
        every(s, p),
    ensures
        every_of(runs(s, sep), p),
    decreases s.len(),
{
    if s.len() > 0 {
        let before = s.drop_last();
        assert forall|i: int| 0 <= i < before.len() implies p(#[trigger] before[i]) by {
            assert(before[i] == s[i]);
        }
        lemma_every_of_runs(before, sep, p);
        let found = runs(before, sep);
        let c = s[s.len() - 1];
        assert(p(c));
        assert forall|i: int| 0 <= i < runs(s, sep).len() implies every(
            #[trigger] runs(s, sep)[i],
            p,
        ) by {
            let w = runs(s, sep)[i];
            if sep.separates(c) {
                assert(w == found[i]);
            } else if before.len() == 0 || sep.separates(before.last()) {
                if i < found.len() {
                    assert(w == found[i]);
                } else {
                    assert(w == seq![c]);
                }
            } else if i < found.len() - 1 {
                assert(w == found[i]);
            } else {
                lemma_runs_are_runs(before, sep);
                assert(every(found[found.len() - 1], p));
                assert(w == found[found.len() - 1].push(c));
            }
        }
    }
}

proof fn lemma_every_of_kept(tokens: Seq<Seq<char>>, p: spec_fn(char) -> bool)
    requires
        every_of(tokens, p),
    ensures
        every_of(kept_tokens(tokens), p),
    decreases tokens.len(),
{
    if tokens.len() > 0 {
        let before = tokens.drop_last();
        assert forall|i: int| 0 <= i < before.len() implies every(#[trigger] before[i], p) by {
            assert(before[i] == tokens[i]);
        }
        lemma_every_of_kept(before, p);
        let kept = kept_tokens(before);
        let token = tokens[tokens.len() - 1];
        assert(every(token, p));
        lemma_core_start_shape(token);
        lemma_last_alnum_end_shape(token);
        let raw = core_of(token);
        assert forall|i: int| 0 <= i < raw.len() implies p(#[trigger] raw[i]) by {
            assert(raw[i] == token[core_start(token) + i]);
        }
        lemma_every_of_runs(raw, Separator::Mark('-'), p);
        let core = unstuttered(raw);
        assert(every(core, p)) by {
            if is_stutter(fragments(raw)) {
                assert(every(fragments(raw)[fragments(raw).len() - 1], p));
            }
        }
        let suffix = suffix_of(token);
        assert forall|i: int| 0 <= i < suffix.len() implies p(#[trigger] suffix[i]) by {
            assert(suffix[i] == token[core_end(token) + i]);
        }
        let prefix = prefix_of(token);
        assert forall|i: int| 0 <= i < prefix.len() implies p(#[trigger] prefix[i]) by {
            assert(prefix[i] == token[i]);
        }
        let rebuilt = prefix + core + suffix;
        assert(every(rebuilt, p));
        let out = kept_tokens(tokens);
        assert forall|i: int| 0 <= i < out.len() implies every(#[trigger] out[i], p) by {
            if i < kept.len() {
                assert(every(kept[i], p));
            }
        }
    }
}

proof fn lemma_every_of_join(list: Seq<Seq<char>>, p: spec_fn(char) -> bool)
    requires
        every_of(list, p),
        p(' '),
    ensures
        every(join(list, gap()), p),
    decreases list.len(),
{
    if list.len() > 1 {
        let before = list.drop_last();
        assert forall|i: int| 0 <= i < before.len() implies every(#[trigger] before[i], p) by {
            assert(before[i] == list[i]);
        }
        lemma_every_of_join(before, p);
        assert(every(list[list.len() - 1], p));
    } else if list.len() == 1 {
        assert(every(list[0], p));
    }
}

/// Stripping never invents a capital, or any other character: of a text that
/// does not start with a capital, every character that is left stood in the
/// text or separates two words.
pub proof fn law_no_character_is_invented(text: Seq<char>)
    requires
        !starts_capitalized(text),
    ensures
        forall|i: int|
            0 <= i < stripped(text).len() ==> #[trigger] stripped(text)[i] == ' ' || text.contains(
                stripped(text)[i],
            ),
{
    let p = |c: char| c == ' ' || text.contains(c);
    assert(every(text, p));
    lemma_every_of_runs(text, Separator::Space, p);
    lemma_every_of_kept(words(text), p);
    lemma_every_of_join(kept_tokens(words(text)), p);
    assert(every(stripped(text), p));
}

/// The words of ASCII text all begin plainly, stuttered or not.
pub proof fn law_ascii_words_begin_plainly(tokens: Seq<Seq<char>>)
    requires
        forall|i: int| 0 <= i < tokens.len() ==> all_ascii(#[trigger] tokens[i]),
    ensures
        words_begin_plainly(tokens),
{
    assert forall|i: int| 0 <= i < tokens.len() implies ({
        let core = unstuttered(core_of(#[trigger] tokens[i]));
        core.len() > 0 ==> is_alnum(core[0])
    }) by {
        let token = tokens[i];
        law_affixes_make_the_token(token);
        let raw = core_of(token);
        lemma_core_start_shape(token);
        lemma_last_alnum_end_shape(token);
        assert(all_ascii(raw)) by {
            assert forall|j: int| 0 <= j < raw.len() implies is_ascii_char(#[trigger] raw[j]) by {
                assert(raw[j] == token[core_start(token) + j]);
            }
        }
        let parts = fragments(raw);
        if is_stutter(parts) {
            let p = |c: char| is_ascii_char(c);
            let sep = Separator::Mark('-');
            assert(every(raw, p));
            lemma_every_of_runs(raw, sep, p);
            lemma_runs_are_runs(raw, sep);
            let first = parts[0];
            let last = parts[parts.len() - 1];
            assert(every(first, p) && every(last, p));
            assert(all_ascii(first) && all_ascii(last));
            assert(is_run(first, sep));
            if raw.len() == 0 {
                assert(parts.len() == 0);
            }
            lemma_first_run(raw, sep);
            assert(lower(parts[0]).is_prefix_of(lower(last)));
            assert(lower(first)[0] == ascii_lower(first[0]));
            assert(lower(last).subrange(0, lower(first).len() as int)[0] == lower(last)[0]);
            assert(lower(last)[0] == ascii_lower(last[0]));
        }
    }
}

/// A text that does not start with a separator starts with its first run.
proof fn lemma_first_run(s: Seq<char>, sep: Separator)
    requires
        s.len() > 0,
        !sep.separates(s[0]),
    ensures
        runs(s, sep).len() > 0,
        runs(s, sep)[0].len() > 0,
        runs(s, sep)[0][0] == s[0],
    decreases s.len(),
{
    let before = s.drop_last();
    let found = runs(before, sep);
    if before.len() > 0 {
        assert(before[0] == s[0]);
        lemma_first_run(before, sep);
        if !sep.separates(s.last()) && !sep.separates(before.last()) && found.len() == 1 {
            assert(runs(s, sep)[0] == found[0].push(s.last()));
        } else {
            assert(runs(s, sep)[0] == found[0]);
        }
    } else {
        assert(found.len() == 0);
        assert(runs(s, sep) == seq![seq![s.last()]]);
    }
}

/// Whether two ASCII texts differ in nothing but case.
pub open spec fn same_but_case(s: Seq<char>, t: Seq<char>) -> bool {
    &&& s.len() == t.len()
    &&& all_ascii(s)
    &&& all_ascii(t)
    &&& forall|i: int| 0 <= i < s.len() ==> ascii_lower(#[trigger] s[i]) == ascii_lower(t[i])
}

proof fn lemma_case_keeps_class(c: char, d: char)
    requires
        is_ascii_char(c),
        is_ascii_char(d),
        ascii_lower(c) == ascii_lower(d),
    ensures
        is_alnum(c) == is_alnum(d),
        (c == '-') == (d == '-'),
{
}

proof fn lemma_same_but_case_fragments(s: Seq<char>, t: Seq<char>)
    requires
        same_but_case(s, t),
    ensures
        fragments(s).len() == fragments(t).len(),
        forall|i: int|
            0 <= i < fragments(s).len() ==> same_but_case(
                #[trigger] fragments(s)[i],
                fragments(t)[i],
            ),
    decreases s.len(),
{
    if s.len() > 0 {
        let sep = Separator::Mark('-');
        let s0 = s.drop_last();
        let t0 = t.drop_last();
        let c = s[s.len() - 1];
        let d = t[t.len() - 1];
        assert(ascii_lower(c) == ascii_lower(d));
        assert(is_ascii_char(c) && is_ascii_char(d));
        lemma_case_keeps_class(c, d);
        assert(same_but_case(s0, t0)) by {
            assert forall|i: int| 0 <= i < s0.len() implies ascii_lower(#[trigger] s0[i])
                == ascii_lower(t0[i]) && is_ascii_char(s0[i]) && is_ascii_char(t0[i]) by {
                assert(s0[i] == s[i] && t0[i] == t[i]);
                assert(is_ascii_char(s[i]) && is_ascii_char(t[i]));
            }
            assert forall|i: int| 0 <= i < t0.len() implies is_ascii_char(#[trigger] t0[i]) by {
                assert(t0[i] == t[i]);
            }
        }
        lemma_same_but_case_fragments(s0, t0);
        if s0.len() > 0 {
            let e = s0[s0.len() - 1];
            let f = t0[t0.len() - 1];
            assert(ascii_lower(e) == ascii_lower(f));
            assert(is_ascii_char(e) && is_ascii_char(f));
            lemma_case_keeps_class(e, f);
        }
        let found_s = fragments(s0);
        let found_t = fragments(t0);
        lemma_runs_are_runs(s0, sep);
        assert forall|i: int| 0 <= i < fragments(s).len() implies same_but_case(
            #[trigger] fragments(s)[i],
            fragments(t)[i],
        ) by {
            if c == '-' {
                assert(fragments(s)[i] == found_s[i] && fragments(t)[i] == found_t[i]);
            } else if s0.len() == 0 || s0.last() == '-' {
                if i < found_s.len() {
                    assert(fragments(s)[i] == found_s[i] && fragments(t)[i] == found_t[i]);
                } else {
                    assert(fragments(s)[i] == seq![c] && fragments(t)[i] == seq![d]);
                }
            } else if i < found_s.len() - 1 {
                assert(fragments(s)[i] == found_s[i] && fragments(t)[i] == found_t[i]);
            } else {
                let n = found_s.len() - 1;
                assert(same_but_case(found_s[n], found_t[n]));
                lemma_same_but_case_push(found_s[n], found_t[n], c, d);
                assert(fragments(s)[i] == found_s[n].push(c) && fragments(t)[i]
                    == found_t[n].push(d));
            }
        }
    }
}

/// Case decides nothing in whether a word is stuttered.
proof fn lemma_same_but_case_stutter(s: Seq<char>, t: Seq<char>)
    requires
        same_but_case(s, t),
    ensures
        is_stutter(fragments(s)) == is_stutter(fragments(t)),
{
    lemma_same_but_case_fragments(s, t);
    let ps = fragments(s);
    let pt = fragments(t);
    assert forall|i: int| 0 <= i < ps.len() implies lower(#[trigger] ps[i]) == lower(pt[i]) by {
        assert(same_but_case(ps[i], pt[i]));
        assert(lower(ps[i]) =~= lower(pt[i]));
    }
    if ps.len() >= 2 {
        let n = ps.len() - 1;
        assert(lower(ps[n]) == lower(pt[n]));
        assert forall|i: int| 0 <= i < n implies lower(#[trigger] ps[i]).is_prefix_of(
            lower(ps.last()),
        ) == lower(pt[i]).is_prefix_of(lower(pt.last())) by {
            assert(lower(ps[i]) == lower(pt[i]));
        }
        if is_stutter(ps) {
            assert forall|i: int| 0 <= i < n implies lower(#[trigger] pt[i]).is_prefix_of(
                lower(pt.last()),
            ) by {
                assert(lower(ps[i]).is_prefix_of(lower(ps.last())));
            }
        }
        if is_stutter(pt) {
            assert forall|i: int| 0 <= i < n implies lower(#[trigger] ps[i]).is_prefix_of(
                lower(ps.last()),
            ) by {
                assert(lower(pt[i]).is_prefix_of(lower(pt.last())));
            }
        }
    }
}

proof fn lemma_same_but_case_push(s: Seq<char>, t: Seq<char>, c: char, d: char)
    requires
        same_but_case(s, t),
        is_ascii_char(c),
        is_ascii_char(d),
        ascii_lower(c) == ascii_lower(d),
    ensures
        same_but_case(s.push(c), t.push(d)),
{
    assert forall|i: int| 0 <= i < s.len() + 1 implies ascii_lower(#[trigger] s.push(c)[i])
        == ascii_lower(t.push(d)[i]) && is_ascii_char(s.push(c)[i]) && is_ascii_char(
        t.push(d)[i],
    ) by {
        if i < s.len() {
            assert(ascii_lower(s[i]) == ascii_lower(t[i]));
            assert(is_ascii_char(s[i]) && is_ascii_char(t[i]));
        }
    }
    assert forall|i: int| 0 <= i < t.len() + 1 implies is_ascii_char(#[trigger] t.push(d)[i]) by {
        if i < t.len() {
            assert(is_ascii_char(t[i]));
        }
    }
}

proof fn lemma_same_but_case_core(s: Seq<char>, t: Seq<char>)
    requires
        same_but_case(s, t),
    ensures
        same_but_case(core_of(s), core_of(t)),
        lower(core_of(s)) == lower(core_of(t)),
{
    lemma_core_start_shape(s);
    lemma_last_alnum_end_shape(s);
    assert forall|i: int| 0 <= i < s.len() implies is_alnum(#[trigger] s[i]) == is_alnum(
        t[i],
    ) by {
        assert(ascii_lower(s[i]) == ascii_lower(t[i]));
        assert(is_ascii_char(s[i]) && is_ascii_char(t[i]));
        lemma_case_keeps_class(s[i], t[i]);
    }
    assert forall|i: int| 0 <= i < core_start(s) implies !is_alnum(#[trigger] t[i]) by {
        assert(!is_alnum(s[i]));
    }
    lemma_core_start(t, core_start(s) as int);
    assert forall|i: int| last_alnum_end(s) <= i < t.len() implies !is_alnum(#[trigger] t[i]) by {
        assert(!is_alnum(s[i]));
    }
    lemma_last_alnum_end(t, last_alnum_end(s) as int);
    let cs = core_of(s);
    let ct = core_of(t);
    let a = core_start(s) as int;
    assert forall|i: int| 0 <= i < cs.len() implies ascii_lower(#[trigger] cs[i]) == ascii_lower(
        ct[i],
    ) && is_ascii_char(cs[i]) && is_ascii_char(ct[i]) by {
        assert(cs[i] == s[a + i] && ct[i] == t[a + i]);
        assert(ascii_lower(s[a + i]) == ascii_lower(t[a + i]));
        assert(is_ascii_char(s[a + i]) && is_ascii_char(t[a + i]));
    }
    assert forall|i: int| 0 <= i < ct.len() implies is_ascii_char(#[trigger] ct[i]) by {
        assert(is_ascii_char(cs[i]));
    }
    assert(lower(cs) == lower(ct));
}

proof fn lemma_same_but_case_clean(kept: Seq<Seq<char>>, out: Seq<Seq<char>>)
    requires
        is_clean(kept),
        out.len() == kept.len(),
        forall|i: int| 0 <= i < kept.len() ==> same_but_case(#[trigger] kept[i], out[i]),
    ensures
        is_clean(out),
{
    assert forall|i: int| 0 <= i < out.len() implies is_settled(
        out.take(i),
        #[trigger] out[i],
    ) by {
        assert(same_but_case(kept[i], out[i]));
        lemma_same_but_case_core(kept[i], out[i]);
        lemma_same_but_case_stutter(core_of(kept[i]), core_of(out[i]));
        assert(is_settled(kept.take(i), kept[i]));
        if i > 0 {
            assert(same_but_case(kept[i - 1], out[i - 1]));
            lemma_same_but_case_core(kept[i - 1], out[i - 1]);
            assert(out.take(i).last() == out[i - 1]);
            assert(kept.take(i).last() == kept[i - 1]);
        }
    }
}

proof fn lemma_first_letter_shape(s: Seq<char>)
    ensures
        first_letter(s) <= s.len(),
        first_letter(s) < s.len() ==> is_letter(s[first_letter(s) as int]),
    decreases s.len(),
{
    if s.len() > 0 && !is_letter(s[0]) {
        let rest = s.drop_first();
        lemma_first_letter_shape(rest);
        if first_letter(s) < s.len() {
            assert(rest[first_letter(rest) as int] == s[first_letter(s) as int]);
        }
    }
}

/// One character of a joined list belongs to one of its texts, unless it is the
/// gap between two of them; changing it there changes it in the whole.
proof fn lemma_update_in_join(list: Seq<Seq<char>>, at: int, c: char) -> (place: (int, int))
    requires
        0 <= at < join(list, gap()).len(),
        join(list, gap())[at] != ' ',
    ensures
        0 <= place.0 < list.len(),
        0 <= place.1 < list[place.0].len(),
        list[place.0][place.1] == join(list, gap())[at],
        join(list, gap()).update(at, c) == join(
            list.update(place.0, list[place.0].update(place.1, c)),
            gap(),
        ),
    decreases list.len(),
{
    let whole = join(list, gap());
    if list.len() == 1 {
        let changed = list.update(0, list[0].update(at, c));
        assert(join(changed, gap()) == changed[0]);
        (0, at)
    } else {
        let before = list.drop_last();
        let head = join(before, gap());
        let n = list.len() - 1;
        assert(whole == head + gap() + list.last());
        if at < head.len() {
            assert(whole[at] == head[at]);
            let (i, k) = lemma_update_in_join(before, at, c);
            let changed = list.update(i, list[i].update(k, c));
            assert(changed.drop_last() =~= before.update(i, before[i].update(k, c)));
            assert(changed.last() == list.last());
            assert(whole.update(at, c) =~= head.update(at, c) + gap() + list.last());
            (i, k)
        } else {
            assert(at != head.len());
            let k = at - head.len() - 1;
            let changed = list.update(n, list[n].update(k, c));
            assert(changed.drop_last() =~= before);
            assert(changed.last() == list[n].update(k, c));
            assert(whole.update(at, c) =~= head + gap() + list[n].update(k, c));
            (n, k)
        }
    }
}

/// What is left of ASCII text is its words with one space between each two, and
/// they have nothing left to strip.
proof fn lemma_stripped_words(text: Seq<char>)
    requires
        all_ascii(text),
    ensures
        is_clean(words(stripped(text))),
        join(words(stripped(text)), gap()) == stripped(text),
{
    let tokens = words(text);
    let ascii = |c: char| is_ascii_char(c);
    assert(every(text, ascii));
    lemma_every_of_runs(text, Separator::Space, ascii);
    assert forall|i: int| 0 <= i < tokens.len() implies all_ascii(#[trigger] tokens[i]) by {
        assert(every(tokens[i], ascii));
    }
    law_ascii_words_begin_plainly(tokens);
    law_kept_tokens_are_clean(tokens);
    let kept = kept_tokens(tokens);
    let solid = |c: char| !is_space(c);
    lemma_words_are_words(text);
    assert forall|i: int| 0 <= i < tokens.len() implies every(#[trigger] tokens[i], solid)
        && tokens[i].len() > 0 by {
        assert(is_word(tokens[i]));
    }
    lemma_every_of_kept(tokens, solid);
    lemma_every_of_kept(tokens, ascii);
    lemma_kept_tokens_are_solid(tokens);
    assert forall|i: int| 0 <= i < kept.len() implies is_word(#[trigger] kept[i]) by {
        assert(every(kept[i], solid));
    }
    lemma_words_of_join(kept);
    let rest = join(kept, gap());
    lemma_every_of_join(kept, ascii);
    if starts_capitalized(text) {
        let at = first_letter(rest) as int;
        lemma_first_letter_shape(rest);
        if at < rest.len() && !is_upper(rest[at]) {
            assert(is_ascii_char(rest[at]));
            let big = ascii_upper(rest[at]);
            let out = capitalized(rest);
            assert(out =~= rest.update(at, big));
            let (i, k) = lemma_update_in_join(kept, at, big);
            let changed = kept.update(i, kept[i].update(k, big));
            assert forall|j: int| 0 <= j < kept.len() implies same_but_case(
                #[trigger] kept[j],
                changed[j],
            ) by {
                assert(every(kept[j], ascii));
                assert(all_ascii(kept[j]));
            }
            assert forall|j: int| 0 <= j < changed.len() implies is_word(#[trigger] changed[j]) by {
                assert(is_word(kept[j]));
            }
            lemma_words_of_join(changed);
            lemma_same_but_case_clean(kept, changed);
        }
    }
}

/// What is left of ASCII text has no filler standing alone, no stutter, and no
/// word twice in a row but those that English doubles.
pub proof fn law_stripped_text_is_clean(text: Seq<char>)
    requires
        all_ascii(text),
    ensures
        is_clean(words(stripped(text))),
{
    lemma_stripped_words(text);
}

/// A stripped text has nothing left to strip: stripping ASCII text a second
/// time changes nothing.
pub proof fn law_stripping_twice_changes_nothing(text: Seq<char>)
    requires
        all_ascii(text),
    ensures
        stripped(stripped(text)) == stripped(text),
{
    lemma_stripped_words(text);
    lemma_clean_tokens_are_kept(words(stripped(text)));
}

/// Text without a filler, a stutter or a repeat, with one space between each two
/// words, passes through unchanged, whatever else it holds.
pub proof fn law_clean_text_is_left_alone(text: Seq<char>)
    requires
        is_clean(words(text)),
        join(words(text), gap()) == text,
    ensures
        stripped(text) == text,
{
    lemma_clean_tokens_are_kept(words(text));
}

/// The fillers, letter by letter: these ten and no other.
pub proof fn law_the_fillers(form: Seq<char>)
    ensures
        is_filler_form(form) <==> {
            ||| form == seq!['u', 'm']
            ||| form == seq!['u', 'm', 'm']
            ||| form == seq!['u', 'm', 'm', 'm']
            ||| form == seq!['u', 'h', 'm']
            ||| form == seq!['u', 'h']
            ||| form == seq!['u', 'h', 'h']
            ||| form == seq!['u', 'h', 'h', 'h']
            ||| form == seq!['e', 'r']
            ||| form == seq!['e', 'r', 'm']
            ||| form == seq!['m', 'm', 'm']
        },
{
    reveal_strlit("um");
    reveal_strlit("umm");
    reveal_strlit("ummm");
    reveal_strlit("uhm");
    reveal_strlit("uh");
    reveal_strlit("uhh");
    reveal_strlit("uhhh");
    reveal_strlit("er");
    reveal_strlit("erm");
    reveal_strlit("mmm");
    assert("um"@ =~= seq!['u', 'm']);
    assert("umm"@ =~= seq!['u', 'm', 'm']);
    assert("ummm"@ =~= seq!['u', 'm', 'm', 'm']);
    assert("uhm"@ =~= seq!['u', 'h', 'm']);
    assert("uh"@ =~= seq!['u', 'h']);
    assert("uhh"@ =~= seq!['u', 'h', 'h']);
    assert("uhhh"@ =~= seq!['u', 'h', 'h', 'h']);
    assert("er"@ =~= seq!['e', 'r']);
    assert("erm"@ =~= seq!['e', 'r', 'm']);
    assert("mmm"@ =~= seq!['m', 'm', 'm']);
}

/// The words that may stand twice, letter by letter.
pub proof fn law_the_doubles(form: Seq<char>)
    ensures
        is_legitimate_double(form) <==> form == seq!['h', 'a', 'd'] || form == seq![
            't',
            'h',
            'a',
            't',
        ],
{
    reveal_strlit("had");
    reveal_strlit("that");
    assert("had"@ =~= seq!['h', 'a', 'd']);
    assert("that"@ =~= seq!['t', 'h', 'a', 't']);
}

/// Where a word is stuttered: it has several fragments between hyphens, and
/// each of them is, character by character and whatever the case, how the last
/// one begins. Then the last one is what was said, and in every other word all
/// of it.
pub proof fn law_what_a_stutter_is(core: Seq<char>)
    ensures
        ({
            let parts = runs(core, Separator::Mark('-'));
            let last = lower(parts.last());
            let stuttered = parts.len() >= 2 && forall|i: int|
                0 <= i < parts.len() - 1 ==> lower(#[trigger] parts[i]).len() <= last.len() && (
                forall|k: int|
                    0 <= k < lower(parts[i]).len() ==> #[trigger] lower(parts[i])[k] == last[k]);
            unstuttered(core) == if stuttered {
                parts.last()
            } else {
                core
            }
        }),
{
    let parts = runs(core, Separator::Mark('-'));
    let last = lower(parts.last());
    if parts.len() >= 2 {
        assert forall|i: int| 0 <= i < parts.len() - 1 implies (lower(
            #[trigger] parts[i],
        ).is_prefix_of(last) <==> lower(parts[i]).len() <= last.len() && (forall|k: int|
            0 <= k < lower(parts[i]).len() ==> #[trigger] lower(parts[i])[k] == last[k])) by {
            let p = lower(parts[i]);
            if p.len() <= last.len() {
                let head = last.subrange(0, p.len() as int);
                if p == head {
                    assert forall|k: int| 0 <= k < p.len() implies #[trigger] p[k] == last[k] by {
                        assert(head[k] == last[k]);
                    }
                }
                if forall|k: int| 0 <= k < p.len() ==> #[trigger] p[k] == last[k] {
                    assert(p =~= head);
                }
            }
        }
    }
}

proof fn lemma_core_with_more_suffix(token: Seq<char>, suffix: Seq<char>)
    requires
        !ends_in_punctuation(token),
        has_no_alnum(suffix),
    ensures
        core_of(token + suffix) == core_of(token),
{
    law_affixes_make_the_token(token);
    lemma_core_start_shape(token);
    lemma_last_alnum_end_shape(token);
    if core_of(token).len() == 0 {
        if token.len() > 0 {
            assert(prefix_of(token)[token.len() - 1] == token.last());
        }
        assert(token + suffix =~= suffix);
        lemma_no_alnum_no_core(suffix);
        assert(core_of(token + suffix) =~= core_of(token));
    } else {
        assert(last_alnum_end(token) == token.len());
        assert(suffix_of(token) == Seq::<char>::empty());
        assert(token + suffix == prefix_of(token) + core_of(token) + suffix);
        lemma_core_of_parts(prefix_of(token), core_of(token), suffix);
    }
}

/// A filler costs no word but itself: after it there are as many tokens as
/// before, with the same words. What changes is at most the end of the last
/// token, which takes over the filler's punctuation where it has none.
pub proof fn law_a_filler_costs_no_word(kept: Seq<Seq<char>>, token: Seq<char>)
    requires
        core_of(token).len() > 0,
        is_filler_form(lower(unstuttered(core_of(token)))),
    ensures
        ({
            let out = keep_token(kept, token);
            &&& out.len() == kept.len()
            &&& forall|i: int| 0 <= i < kept.len() ==> core_of(#[trigger] out[i]) == core_of(kept[i])
            &&& forall|i: int| 0 <= i < kept.len() - 1 ==> #[trigger] out[i] == kept[i]
            &&& kept.len() > 0 ==> {
                let last = kept[kept.len() - 1];
                out[kept.len() - 1] == if last.len() > 0 && !is_alnum(last[last.len() - 1]) {
                    last
                } else {
                    last + suffix_of(token)
                }
            }
        }),
{
    law_affixes_make_the_token(token);
    let suffix = suffix_of(token);
    let out = keep_token(kept, token);
    if kept.len() > 0 {
        let last = kept[kept.len() - 1];
        if suffix.len() == 0 {
            assert(last + suffix =~= last);
        } else if !ends_in_punctuation(last) {
            lemma_core_with_more_suffix(last, suffix);
        }
        assert forall|i: int| 0 <= i < kept.len() implies core_of(#[trigger] out[i]) == core_of(
            kept[i],
        ) by {
            if i < kept.len() - 1 {
                assert(out[i] == kept[i]);
            }
        }
    }
}

/// A token without a letter or digit is kept after all others, as it is.
pub proof fn law_a_mark_is_kept(kept: Seq<Seq<char>>, token: Seq<char>)
    requires
        forall|i: int| 0 <= i < token.len() ==> !is_alnum(#[trigger] token[i]),
    ensures
        keep_token(kept, token) == kept.push(token),
{
    lemma_no_alnum_no_core(token);
}

/// Any other token is kept with its punctuation on both sides and the word
/// finally said. It comes after all others, except that it takes the place of a
/// last one that says the same word, whatever the case, unless that word is
/// `had` or `that`.
pub proof fn law_a_word_is_kept(kept: Seq<Seq<char>>, token: Seq<char>)
    requires
        core_of(token).len() > 0,
        !is_filler_form(lower(unstuttered(core_of(token)))),
    ensures
        ({
            let word = unstuttered(core_of(token));
            let form = lower(word);
            let out = keep_token(kept, token);
            let again = kept.len() > 0 && core_of(kept.last()).len() > 0 && lower(
                core_of(kept.last()),
            ) == form && form != seq!['h', 'a', 'd'] && form != seq!['t', 'h', 'a', 't'];
            &&& out.len() > 0
            &&& out[out.len() - 1] == prefix_of(token) + word + suffix_of(token)
            &&& again ==> out.take(out.len() - 1) == kept.take(kept.len() - 1)
            &&& !again ==> out.take(out.len() - 1) == kept
        }),
{
    let word = unstuttered(core_of(token));
    law_the_doubles(lower(word));
    let out = keep_token(kept, token);
    if says_again(kept, word) {
        assert(out.take(out.len() - 1) =~= kept.take(kept.len() - 1));
    } else {
        assert(out.take(out.len() - 1) =~= kept);
    }
}

/// Tokens are read one after the other, from the first.
pub proof fn law_tokens_are_read_in_order(tokens: Seq<Seq<char>>, token: Seq<char>)
    ensures
        kept_tokens(seq![]).len() == 0,
        kept_tokens(tokens.push(token)) == keep_token(kept_tokens(tokens), token),
{
    assert(tokens.push(token).drop_last() =~= tokens);
}

/// The word that a token finally says; nothing for a token without one.
pub open spec fn word_said(token: Seq<char>) -> Seq<char> {
    unstuttered(core_of(token))
}

/// The words of the tokens that are no fillers, in order.
pub open spec fn words_said(tokens: Seq<Seq<char>>) -> Seq<Seq<char>>
    decreases tokens.len(),
{
    if tokens.len() == 0 {
        seq![]
    } else {
        let before = words_said(tokens.drop_last());
        if is_filler_form(lower(word_said(tokens.last()))) {
            before
        } else {
            before.push(word_said(tokens.last()))
        }
    }
}

/// The words of tokens.
pub open spec fn cores(tokens: Seq<Seq<char>>) -> Seq<Seq<char>> {
    tokens.map_values(|token: Seq<char>| core_of(token))
}

/// `word` says `last` again.
pub open spec fn is_repeat(last: Seq<char>, word: Seq<char>) -> bool {
    &&& last.len() > 0
    &&& word.len() > 0
    &&& lower(last) == lower(word)
    &&& lower(word) != seq!['h', 'a', 'd']
    &&& lower(word) != seq!['t', 'h', 'a', 't']
}

/// A list in which of words said several times in a row the last is left.
pub open spec fn without_repeats(list: Seq<Seq<char>>) -> Seq<Seq<char>>
    decreases list.len(),
{
    if list.len() == 0 {
        seq![]
    } else {
        let before = without_repeats(list.drop_last());
        if before.len() > 0 && is_repeat(before.last(), list.last()) {
            before.drop_last().push(list.last())
        } else {
            before.push(list.last())
        }
    }
}

proof fn lemma_empty_is_no_filler()
    ensures
        !is_filler_form(lower(Seq::<char>::empty())),
        unstuttered(Seq::<char>::empty()) == Seq::<char>::empty(),
{
    let nothing = Seq::<char>::empty();
    assert(lower(nothing).len() == 0) by {
        assert(all_ascii(nothing));
    }
    law_the_fillers(lower(nothing));
    assert(runs(nothing, Separator::Mark('-')).len() == 0);
}

/// Stripping loses no word but a filler or a repeat, and changes none: the words
/// that are left are those that were finally said, in order, without the
/// fillers, and each once where it came several times in a row.
pub proof fn law_what_is_left_was_said(tokens: Seq<Seq<char>>)
    requires
        words_begin_plainly(tokens),
    ensures
        cores(kept_tokens(tokens)) == without_repeats(words_said(tokens)),
    decreases tokens.len(),
{
    if tokens.len() == 0 {
        assert(cores(kept_tokens(tokens)) =~= seq![]);
    } else {
        let before = tokens.drop_last();
        assert forall|i: int| 0 <= i < before.len() implies ({
            let core = unstuttered(core_of(#[trigger] before[i]));
            core.len() > 0 ==> is_alnum(core[0])
        }) by {
            assert(before[i] == tokens[i]);
        }
        law_what_is_left_was_said(before);
        let kept = kept_tokens(before);
        let token = tokens[tokens.len() - 1];
        let out = keep_token(kept, token);
        let said = words_said(before);
        let word = word_said(token);
        law_affixes_make_the_token(token);
        assert(cores(kept) == without_repeats(said));
        if kept.len() > 0 {
            assert(cores(kept).last() == core_of(kept.last()));
        }
        assert(kept.len() == without_repeats(said).len());
        if core_of(token).len() == 0 {
            lemma_empty_is_no_filler();
            assert(core_of(token) =~= Seq::<char>::empty());
            assert(words_said(tokens) == said.push(word));
            assert(said.push(word).drop_last() =~= said);
            assert(cores(out) =~= without_repeats(said).push(word));
        } else if is_filler_form(lower(word)) {
            law_a_filler_costs_no_word(kept, token);
            assert(cores(out) =~= cores(kept));
        } else {
            lemma_unstuttered_end(core_of(token));
            lemma_core_of_parts(prefix_of(token), word, suffix_of(token));
            law_the_doubles(lower(word));
            assert(words_said(tokens) == said.push(word));
            assert(said.push(word).drop_last() =~= said);
            if says_again(kept, word) {
                assert(cores(out) =~= cores(kept).drop_last().push(word));
            } else {
                assert(cores(out) =~= cores(kept).push(word));
            }
        }
    }
}

/// Of a text in which no word is said twice in a row, every word that is no
/// filler is left, in order.
pub proof fn law_no_word_is_lost_without_repeats(tokens: Seq<Seq<char>>)
    requires
        words_begin_plainly(tokens),
        forall|i: int|
            0 < i < words_said(tokens).len() ==> !is_repeat(
                words_said(tokens)[i - 1],
                #[trigger] words_said(tokens)[i],
            ),
    ensures
        cores(kept_tokens(tokens)) == words_said(tokens),
{
    law_what_is_left_was_said(tokens);
    lemma_no_repeats(words_said(tokens));
}

proof fn lemma_no_repeats(list: Seq<Seq<char>>)
    requires
        forall|i: int| 0 < i < list.len() ==> !is_repeat(list[i - 1], #[trigger] list[i]),
    ensures
        without_repeats(list) == list,
    decreases list.len(),
{
    if list.len() > 0 {
        let before = list.drop_last();
        assert forall|i: int| 0 < i < before.len() implies !is_repeat(
            before[i - 1],
            #[trigger] before[i],
        ) by {
            assert(before[i] == list[i]);
        }
        lemma_no_repeats(before);
        let n = list.len() - 1;
        if n > 0 {
            assert(!is_repeat(list[n - 1], list[n]));
        }
        assert(before.push(list.last()) =~= list);
    } else {
        assert(list =~= seq![]);
    }
}

/// A list without its repeats ends with the same word, has none twice in a row,
/// and is never longer.
pub proof fn law_repeats_collapse(list: Seq<Seq<char>>)
    ensures
        ({
            let out = without_repeats(list);
            &&& out.len() <= list.len()
            &&& list.len() > 0 ==> out.len() > 0 && out.last() == list.last()
            &&& forall|i: int| 0 < i < out.len() ==> !is_repeat(out[i - 1], #[trigger] out[i])
        }),
    decreases list.len(),
{
    if list.len() > 0 {
        let before = without_repeats(list.drop_last());
        let out = without_repeats(list);
        let word = list.last();
        law_repeats_collapse(list.drop_last());
        assert forall|i: int| 0 < i < out.len() implies !is_repeat(out[i - 1], #[trigger] out[i]) by {
            if i < out.len() - 1 {
                assert(out[i] == before[i] && out[i - 1] == before[i - 1]);
            } else if before.len() > 0 && is_repeat(before.last(), word) {
                assert(out[i - 1] == before[i - 1]);
                assert(!is_repeat(before[i - 1], before[i]));
            }
        }
    }
}

/// A text starts with a capital where the first of its letters is one.
pub proof fn law_a_capital_start(s: Seq<char>)
    ensures
        starts_capitalized(s) <==> exists|i: int|
            {
                &&& 0 <= i < s.len()
                &&& is_letter(#[trigger] s[i])
                &&& is_upper(s[i])
                &&& forall|j: int| 0 <= j < i ==> !is_letter(#[trigger] s[j])
            },
{
    let at = first_letter(s) as int;
    lemma_first_letter_shape(s);
    lemma_no_letter_before(s);
    if starts_capitalized(s) {
        assert(is_letter(s[at]));
    }
    if exists|i: int|
        {
            &&& 0 <= i < s.len()
            &&& is_letter(#[trigger] s[i])
            &&& is_upper(s[i])
            &&& forall|j: int| 0 <= j < i ==> !is_letter(#[trigger] s[j])
        } {
        let i = choose|i: int|
            {
                &&& 0 <= i < s.len()
                &&& is_letter(#[trigger] s[i])
                &&& is_upper(s[i])
                &&& forall|j: int| 0 <= j < i ==> !is_letter(#[trigger] s[j])
            };
        if at < i {
            assert(!is_letter(s[at]));
        }
        if i < at {
            assert(!is_letter(s[i]));
        }
    }
}

proof fn lemma_no_letter_before(s: Seq<char>)
    ensures
        forall|j: int| 0 <= j < first_letter(s) ==> !is_letter(#[trigger] s[j]),
    decreases s.len(),
{
    if s.len() > 0 && !is_letter(s[0]) {
        let rest = s.drop_first();
        lemma_no_letter_before(rest);
        lemma_first_letter_shape(rest);
        assert forall|j: int| 0 <= j < first_letter(s) implies !is_letter(#[trigger] s[j]) by {
            if j > 0 {
                assert(rest[j - 1] == s[j]);
            }
        }
    }
}

/// Capitalizing changes the first letter, to its capital, and nothing else; a
/// text without a letter stays.
pub proof fn law_capitalizing_changes_the_first_letter(s: Seq<char>, i: int)
    ensures
        (forall|j: int| 0 <= j < s.len() ==> !is_letter(#[trigger] s[j])) ==> capitalized(s) == s,
        0 <= i < s.len() && is_letter(s[i]) && (forall|j: int|
            0 <= j < i ==> !is_letter(#[trigger] s[j])) ==> capitalized(s) == if is_upper(s[i]) {
            s
        } else {
            s.subrange(0, i) + upper(s[i]) + s.subrange(i + 1, s.len() as int)
        },
{
    let at = first_letter(s) as int;
    lemma_first_letter_shape(s);
    lemma_no_letter_before(s);
    if 0 <= i < s.len() && is_letter(s[i]) && (forall|j: int|
        0 <= j < i ==> !is_letter(#[trigger] s[j])) {
        if at < i {
            assert(!is_letter(s[at]));
        }
        assert(at == i);
        assert(s.take(i) =~= s.subrange(0, i));
        assert(s.skip(i + 1) =~= s.subrange(i + 1, s.len() as int));
    }
}

/// What is left of a text: the tokens that are kept, with one space between each
/// two, and a capital to start with where the text had one.
pub proof fn law_the_capital_is_given_back(text: Seq<char>)
    ensures
        ({
            let rest = join(kept_tokens(words(text)), seq![' ']);
            &&& starts_capitalized(text) ==> stripped(text) == capitalized(rest)
            &&& !starts_capitalized(text) ==> stripped(text) == rest
        }),
{
}

} // verus!
