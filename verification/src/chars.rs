//! Character classes and case, as the text passes see them.
//!
//! On ASCII every class is spelled out. Beyond ASCII the Unicode tables of
//! the standard library decide, and a name stands for their answer.

use vstd::prelude::*;

verus! {

pub open spec fn is_ascii_char(c: char) -> bool {
    (c as u32) < 128
}

pub open spec fn is_ascii_lower(c: char) -> bool {
    'a' <= c <= 'z'
}

pub open spec fn is_ascii_upper(c: char) -> bool {
    'A' <= c <= 'Z'
}

pub open spec fn is_ascii_number(c: char) -> bool {
    '0' <= c <= '9'
}

/// What `char::is_whitespace` answers beyond ASCII.
pub uninterp spec fn unicode_whitespace(c: char) -> bool;

/// What `char::is_alphabetic` answers beyond ASCII.
pub uninterp spec fn unicode_alphabetic(c: char) -> bool;

/// What `char::is_alphanumeric` answers beyond ASCII.
pub uninterp spec fn unicode_alphanumeric(c: char) -> bool;

/// What `char::is_uppercase` answers beyond ASCII.
pub uninterp spec fn unicode_uppercase(c: char) -> bool;

/// What `char::to_uppercase` gives for a character beyond ASCII.
pub uninterp spec fn unicode_to_uppercase(c: char) -> Seq<char>;

/// What `str::to_lowercase` gives for a text that is not all ASCII.
pub uninterp spec fn unicode_to_lowercase(s: Seq<char>) -> Seq<char>;

/// Whether `c` separates words.
pub open spec fn is_space(c: char) -> bool {
    if is_ascii_char(c) {
        c == ' ' || 9 <= c as u32 <= 13
    } else {
        unicode_whitespace(c)
    }
}

pub open spec fn is_letter(c: char) -> bool {
    if is_ascii_char(c) {
        is_ascii_lower(c) || is_ascii_upper(c)
    } else {
        unicode_alphabetic(c)
    }
}

pub open spec fn is_alnum(c: char) -> bool {
    if is_ascii_char(c) {
        is_ascii_lower(c) || is_ascii_upper(c) || is_ascii_number(c)
    } else {
        unicode_alphanumeric(c)
    }
}

pub open spec fn is_upper(c: char) -> bool {
    if is_ascii_char(c) {
        is_ascii_upper(c)
    } else {
        unicode_uppercase(c)
    }
}

/// The upper-case form of one character, which may be several characters.
pub open spec fn upper(c: char) -> Seq<char> {
    if is_ascii_char(c) {
        seq![ascii_upper(c)]
    } else {
        unicode_to_uppercase(c)
    }
}

pub open spec fn ascii_upper(c: char) -> char {
    if is_ascii_lower(c) {
        ((c as u32) - 32) as char
    } else {
        c
    }
}

pub open spec fn ascii_lower(c: char) -> char {
    if is_ascii_upper(c) {
        ((c as u32) + 32) as char
    } else {
        c
    }
}

pub open spec fn all_ascii(s: Seq<char>) -> bool {
    forall|i: int| 0 <= i < s.len() ==> is_ascii_char(#[trigger] s[i])
}

/// The lower-case form of a text.
pub open spec fn lower(s: Seq<char>) -> Seq<char> {
    if all_ascii(s) {
        s.map_values(|c: char| ascii_lower(c))
    } else {
        unicode_to_lowercase(s)
    }
}

/// `char::is_whitespace`: on ASCII the space and the controls from tab to
/// carriage return; elsewhere the Unicode `White_Space` property.
pub assume_specification[ char::is_whitespace ](c: char) -> (r: bool)
    ensures
        is_ascii_char(c) ==> r == (c == ' ' || 9 <= c as u32 <= 13),
        !is_ascii_char(c) ==> r == unicode_whitespace(c),
;

/// `char::is_alphabetic`: on ASCII the letters; elsewhere the Unicode
/// `Alphabetic` property.
pub assume_specification[ char::is_alphabetic ](c: char) -> (r: bool)
    ensures
        is_ascii_char(c) ==> r == (is_ascii_lower(c) || is_ascii_upper(c)),
        !is_ascii_char(c) ==> r == unicode_alphabetic(c),
;

/// `char::is_alphanumeric`: on ASCII the letters and digits; elsewhere the
/// Unicode `Alphabetic` property or a numeric category.
pub assume_specification[ char::is_alphanumeric ](c: char) -> (r: bool)
    ensures
        is_ascii_char(c) ==> r == (is_ascii_lower(c) || is_ascii_upper(c) || is_ascii_number(c)),
        !is_ascii_char(c) ==> r == unicode_alphanumeric(c),
;

/// `char::is_uppercase`: on ASCII the capital letters; elsewhere the
/// Unicode `Uppercase` property.
pub assume_specification[ char::is_uppercase ](c: char) -> (r: bool)
    ensures
        is_ascii_char(c) ==> r == is_ascii_upper(c),
        !is_ascii_char(c) ==> r == unicode_uppercase(c),
;

/// Calls `char::to_uppercase` and collects what it yields: an ASCII letter
/// becomes its capital, any other ASCII character stays, and beyond ASCII
/// the Unicode mapping applies.
#[verifier::external_body]
pub(crate) fn upper_of(c: char) -> (r: Vec<char>)
    ensures
        is_ascii_char(c) ==> r@ == seq![ascii_upper(c)],
        !is_ascii_char(c) ==> r@ == unicode_to_uppercase(c),
{
    c.to_uppercase().collect()
}

/// Calls `str::to_lowercase`: an all-ASCII text has its capitals replaced
/// one for one, any other text follows the Unicode mapping.
#[verifier::external_body]
pub(crate) fn lower_of(s: &str) -> (r: String)
    ensures
        all_ascii(s@) ==> r@ == s@.map_values(|c: char| ascii_lower(c)),
        !all_ascii(s@) ==> r@ == unicode_to_lowercase(s@),
{
    s.to_lowercase()
}

/// `String::push`: appends one character.
pub assume_specification[ String::push ](s: &mut String, c: char)
    ensures
        final(s)@ == old(s)@.push(c),
;

/// The characters of `s`, in order.
pub fn chars_of(s: &str) -> (out: Vec<char>)
    ensures
        out@ == s@,
{
    let mut out: Vec<char> = Vec::new();
    for c in it: s.chars()
        invariant
            out@ == s@.take(it.index()),
            it.seq() == s@,
    {
        out.push(c);
        assert(s@.take(it.index() + 1) == s@.take(it.index()).push(c));
    }
    assert(s@.take(s@.len() as int) == s@);
    out
}

/// The text made of the characters `from..to` of `chars`.
pub fn text_of(chars: &Vec<char>, from: usize, to: usize) -> (out: String)
    requires
        from <= to <= chars@.len(),
    ensures
        out@ == chars@.subrange(from as int, to as int),
{
    let mut out = String::new();
    let mut i: usize = from;
    while i < to
        invariant
            from <= i <= to <= chars@.len(),
            out@ == chars@.subrange(from as int, i as int),
        decreases to - i,
    {
        out.push(chars[i]);
        i += 1;
        assert(chars@.subrange(from as int, i as int) == chars@.subrange(from as int, i - 1).push(
            chars@[i - 1],
        ));
    }
    out
}

/// Which characters of ASCII are white space, letters, digits and capitals, by
/// their codes, and what the capital of each is.
pub proof fn law_classes_of_ascii(c: char)
    requires
        (c as u32) < 128,
    ensures
        is_space(c) <==> c == ' ' || c == '\t' || c == '\n' || c == '\r' || c as u32 == 11 || c as u32
            == 12,
        is_letter(c) <==> 65 <= c as u32 <= 90 || 97 <= c as u32 <= 122,
        is_alnum(c) <==> is_letter(c) || 48 <= c as u32 <= 57,
        is_upper(c) <==> 65 <= c as u32 <= 90,
        upper(c).len() == 1,
        97 <= c as u32 <= 122 ==> upper(c)[0] as u32 == c as u32 - 32,
        !(97 <= c as u32 <= 122) ==> upper(c)[0] == c,
{
}

/// Beyond ASCII the tables decide, each for its own class.
pub proof fn law_classes_beyond_ascii(c: char)
    requires
        (c as u32) >= 128,
    ensures
        is_space(c) == unicode_whitespace(c),
        is_letter(c) == unicode_alphabetic(c),
        is_alnum(c) == unicode_alphanumeric(c),
        is_upper(c) == unicode_uppercase(c),
        upper(c) == unicode_to_uppercase(c),
{
}

/// Lower case changes the capitals of an ASCII text, each where it stands, and
/// nothing else.
pub proof fn law_lower_case_of_ascii(s: Seq<char>)
    requires
        forall|i: int| 0 <= i < s.len() ==> ((#[trigger] s[i]) as u32) < 128,
    ensures
        lower(s).len() == s.len(),
        forall|i: int|
            0 <= i < s.len() ==> (#[trigger] lower(s)[i]) as u32 == if 65 <= s[i] as u32 <= 90 {
                s[i] as u32 + 32
            } else {
                s[i] as u32 as int
            },
{
}

} // verus!
