//! The user dictionary: names and jargon that decoding is biased toward.
//!
//! The decoder leans toward text that sounds like its initial prompt, so the
//! terms are put into a natural sentence rather than a bare list.

use vstd::prelude::*;

use crate::chars::chars_of;
use crate::words::{
    join, join_texts, law_trimming_keeps_the_middle, runs, split_runs, texts, trim, trimmed, Separator,
};

verus! {

/// Whether a trimmed line holds a term: it is not blank and not a comment.
pub open spec fn is_term(line: Seq<char>) -> bool {
    line.len() > 0 && line[0] != '#'
}

/// The terms among `lines`: those that hold one, each trimmed.
pub open spec fn terms_of(lines: Seq<Seq<char>>) -> Seq<Seq<char>>
    decreases lines.len(),
{
    if lines.len() == 0 {
        seq![]
    } else {
        let before = terms_of(lines.drop_last());
        let line = trim(lines.last());
        if is_term(line) {
            before.push(line)
        } else {
            before
        }
    }
}

/// The terms of a dictionary file: one to a line.
pub open spec fn dictionary_terms(contents: Seq<char>) -> Seq<Seq<char>> {
    terms_of(runs(contents, Separator::Mark('\n')))
}

/// Parses the contents of a dictionary file: one term per line, blank lines
/// and lines that start with `#` ignored, surrounding white space trimmed.
pub fn parse_dictionary(contents: &str) -> (terms: Vec<String>)
    ensures
        texts(terms@) == dictionary_terms(contents@),
{
    let lines = split_runs(contents, Separator::Mark('\n'));
    let mut terms: Vec<String> = Vec::new();
    let mut i: usize = 0;
    assert(texts(terms@) == terms_of(texts(lines@).take(0)));
    while i < lines.len()
        invariant
            0 <= i <= lines@.len(),
            texts(terms@) == terms_of(texts(lines@).take(i as int)),
        decreases lines.len() - i,
    {
        let ghost all = texts(lines@);
        assert(all.take(i + 1).drop_last() == all.take(i as int));
        assert(all.take(i + 1).last() == lines@[i as int]@);
        let line = trimmed(lines[i].as_str());
        let cs = chars_of(line.as_str());
        if cs.len() > 0 && cs[0] != '#' {
            let ghost before = terms@;
            terms.push(line);
            assert(texts(terms@) == texts(before).push(line@));
        }
        i += 1;
    }
    assert(texts(lines@).take(i as int) == texts(lines@));
    terms
}

/// The sentence that lists the terms.
pub open spec fn prompt_of(terms: Seq<Seq<char>>) -> Seq<char> {
    "Vocabulary that may appear: "@ + join(terms, ", "@) + "."@
}

/// Builds the decoder's initial prompt from dictionary terms; `None` if there
/// are none, so that decoding is not biased toward an empty list.
pub fn build_initial_prompt(terms: &[String]) -> (prompt: Option<String>)
    ensures
        prompt is Some == (terms@.len() > 0),
        prompt matches Some(text) ==> text@ == prompt_of(texts(terms@)),
{
    if terms.len() == 0 {
        return None;
    }
    let mut text = "Vocabulary that may appear: ".to_owned();
    text.append(join_texts(terms, ", ").as_str());
    text.append(".");
    Some(text)
}

/// Every term of a dictionary is trimmed, not empty, and not a comment.
pub proof fn law_terms_are_trimmed_and_real(contents: Seq<char>)
    ensures
        forall|i: int|
            0 <= i < dictionary_terms(contents).len() ==> {
                let term = #[trigger] dictionary_terms(contents)[i];
                is_term(term) && trim(term) == term
            },
{
    lemma_terms(runs(contents, Separator::Mark('\n')));
}

proof fn lemma_terms(lines: Seq<Seq<char>>)
    ensures
        forall|i: int|
            0 <= i < terms_of(lines).len() ==> {
                let term = #[trigger] terms_of(lines)[i];
                is_term(term) && trim(term) == term
            },
    decreases lines.len(),
{
    if lines.len() > 0 {
        let before = terms_of(lines.drop_last());
        lemma_terms(lines.drop_last());
        let line = trim(lines.last());
        crate::words::lemma_trim_twice(lines.last());
        assert forall|i: int| 0 <= i < terms_of(lines).len() implies ({
            let term = #[trigger] terms_of(lines)[i];
            is_term(term) && trim(term) == term
        }) by {
            if i < before.len() {
                assert(terms_of(lines)[i] == before[i]);
            }
        }
    }
}

/// A separator between two texts keeps their runs apart.
proof fn lemma_runs_on_either_side(a: Seq<char>, mark: char, b: Seq<char>)
    ensures
        runs(a.push(mark) + b, Separator::Mark(mark)) == runs(a, Separator::Mark(mark)) + runs(
            b,
            Separator::Mark(mark),
        ),
    decreases b.len(),
{
    let sep = Separator::Mark(mark);
    let whole = a.push(mark) + b;
    if b.len() == 0 {
        assert(whole =~= a.push(mark));
        assert(whole.drop_last() =~= a);
        assert(runs(b, sep) =~= seq![]);
        assert(runs(a, sep) + runs(b, sep) =~= runs(a, sep));
    } else {
        let rest = b.drop_last();
        lemma_runs_on_either_side(a, mark, rest);
        assert(whole.drop_last() =~= a.push(mark) + rest);
        assert(whole.last() == b.last());
        crate::words::lemma_runs_are_runs(rest, sep);
        if rest.len() > 0 {
            assert((a.push(mark) + rest).last() == rest.last());
        } else {
            assert((a.push(mark) + rest).last() == mark);
            assert(runs(rest, sep) =~= seq![]);
        }
        assert(runs(whole, sep) =~= runs(a, sep) + runs(b, sep));
    }
}

proof fn lemma_terms_add_up(first: Seq<Seq<char>>, second: Seq<Seq<char>>)
    ensures
        terms_of(first + second) == terms_of(first) + terms_of(second),
    decreases second.len(),
{
    if second.len() == 0 {
        assert(first + second =~= first);
        assert(terms_of(first) + terms_of(second) =~= terms_of(first));
    } else {
        let rest = second.drop_last();
        lemma_terms_add_up(first, rest);
        assert((first + second).drop_last() =~= first + rest);
        assert((first + second).last() == second.last());
        assert(terms_of(first + second) =~= terms_of(first) + terms_of(second));
    }
}

/// A dictionary is read line by line: the terms of two parts with a line break
/// between them are those of the first and then those of the second.
pub proof fn law_a_dictionary_is_read_line_by_line(first: Seq<char>, second: Seq<char>)
    ensures
        dictionary_terms(first.push('\n') + second) == dictionary_terms(first) + dictionary_terms(
            second,
        ),
{
    lemma_runs_on_either_side(first, '\n', second);
    lemma_terms_add_up(
        runs(first, Separator::Mark('\n')),
        runs(second, Separator::Mark('\n')),
    );
}

/// What a line says: what is left when it is trimmed is a term, unless it is
/// blank or starts with a `#`.
pub proof fn law_what_a_line_says(line: Seq<char>)
    requires
        forall|i: int| 0 <= i < line.len() ==> #[trigger] line[i] != '\n',
    ensures
        ({
            let term = trim(line);
            dictionary_terms(line) == if term.len() > 0 && term[0] != '#' {
                seq![term]
            } else {
                seq![]
            }
        }),
{
    let lines = runs(line, Separator::Mark('\n'));
    if line.len() == 0 {
        assert(lines =~= seq![]);
        assert(terms_of(lines) =~= seq![]);
        law_trimming_keeps_the_middle(line);
    } else {
        lemma_one_run(line, '\n');
        assert(lines.drop_last() =~= seq![]);
        assert(terms_of(lines.drop_last()) =~= seq![]);
        assert(lines.last() == line);
        assert(dictionary_terms(line) =~= if is_term(trim(line)) {
            seq![trim(line)]
        } else {
            seq![]
        });
    }
}

proof fn lemma_one_run(w: Seq<char>, mark: char)
    requires
        w.len() > 0,
        forall|i: int| 0 <= i < w.len() ==> #[trigger] w[i] != mark,
    ensures
        runs(w, Separator::Mark(mark)) == seq![w],
    decreases w.len(),
{
    let sep = Separator::Mark(mark);
    let before = w.drop_last();
    assert(w[w.len() - 1] == w.last());
    if before.len() > 0 {
        assert forall|i: int| 0 <= i < before.len() implies #[trigger] before[i] != mark by {
            assert(before[i] == w[i]);
        }
        lemma_one_run(before, mark);
        assert(before.last() == w[w.len() - 2]);
        assert(before.push(w.last()) =~= w);
        assert(runs(w, sep) =~= seq![w]);
    } else {
        assert(runs(before, sep).len() == 0);
        assert(runs(w, sep) =~= seq![seq![w.last()]]);
        assert(seq![w.last()] =~= w);
    }
}

/// Each further term stands at the end of the sentence, after a comma.
pub proof fn law_terms_stand_in_a_sentence(terms: Seq<Seq<char>>, term: Seq<char>)
    ensures
        prompt_of(seq![term]) == "Vocabulary that may appear: "@ + term + "."@,
        terms.len() > 0 ==> prompt_of(terms.push(term)) == prompt_of(terms).drop_last() + ", "@
            + term + "."@,
{
    reveal_strlit(".");
    assert(join(seq![term], ", "@) == term);
    if terms.len() > 0 {
        let all = terms.push(term);
        assert(all.drop_last() =~= terms);
        assert(all.last() == term);
        assert(prompt_of(terms).drop_last() =~= "Vocabulary that may appear: "@ + join(
            terms,
            ", "@,
        ));
        assert(prompt_of(all) =~= prompt_of(terms).drop_last() + ", "@ + term + "."@);
    }
}

} // verus!
