//! Building blocks for working with `String` and `char` in verified code.

use vstd::prelude::*;

verus! {

/// `String::push` appends exactly the given character to the end of the string.
pub assume_specification[ String::push ](s: &mut String, ch: char)
    ensures
        final(s)@ == old(s)@.push(ch),
;

/// What `char::is_alphabetic` returns for a character outside ASCII: whether Unicode gives it
/// the Alphabetic property.
pub uninterp spec fn unicode_alphabetic(c: char) -> bool;

/// What `char::is_alphanumeric` returns for a character outside ASCII: whether Unicode gives it
/// the Alphabetic property or one of the general categories for numbers.
pub uninterp spec fn unicode_alphanumeric(c: char) -> bool;

/// The letters `a` to `z` and `A` to `Z`.
pub open spec fn is_ascii_letter(c: char) -> bool {
    ('a' <= c && c <= 'z') || ('A' <= c && c <= 'Z')
}

/// The digits `0` to `9`.
pub open spec fn is_ascii_digit(c: char) -> bool {
    '0' <= c && c <= '9'
}

/// Whether a character is alphabetic: within ASCII the letters, beyond it what Unicode says.
pub open spec fn alphabetic(c: char) -> bool {
    if c <= '\x7f' {
        is_ascii_letter(c)
    } else {
        unicode_alphabetic(c)
    }
}

/// Whether a character is alphabetic or numeric: within ASCII the letters and digits, beyond it
/// what Unicode says.
pub open spec fn alphanumeric(c: char) -> bool {
    if c <= '\x7f' {
        is_ascii_letter(c) || is_ascii_digit(c)
    } else {
        unicode_alphanumeric(c)
    }
}

/// `char::is_alphabetic` tells whether a character has Unicode's Alphabetic property. Of the
/// ASCII characters exactly the letters have it; beyond ASCII the answer comes from Unicode's
/// tables, which are not restated here.
pub assume_specification[ char::is_alphabetic ](c: char) -> (r: bool)
    ensures
        c <= '\x7f' ==> r == is_ascii_letter(c),
        c > '\x7f' ==> r == unicode_alphabetic(c),
;

/// `char::is_alphanumeric` tells whether a character is alphabetic or numeric. Of the ASCII
/// characters exactly the letters and digits are; beyond ASCII the answer comes from Unicode's
/// tables, which are not restated here.
pub assume_specification[ char::is_alphanumeric ](c: char) -> (r: bool)
    ensures
        c <= '\x7f' ==> r == (is_ascii_letter(c) || is_ascii_digit(c)),
        c > '\x7f' ==> r == unicode_alphanumeric(c),
;

/// Whether `pattern` stands in `s` at offset `at`.
pub open spec fn occurs_at(s: Seq<char>, at: int, pattern: Seq<char>) -> bool {
    &&& 0 <= at
    &&& at + pattern.len() <= s.len()
    &&& s.subrange(at, at + pattern.len()) == pattern
}

/// Whether `pattern` stands somewhere in `s`.
pub open spec fn occurs_in(s: Seq<char>, pattern: Seq<char>) -> bool {
    exists|at: int| occurs_at(s, at, pattern)
}

/// `s` with each occurrence of `from` replaced by `to`. Occurrences are taken from left to
/// right and do not overlap; with an empty `from` nothing is replaced.
pub open spec fn replaced(s: Seq<char>, from: Seq<char>, to: Seq<char>) -> Seq<char>
    decreases s.len(),
{
    if from.len() == 0 || s.len() < from.len() {
        s
    } else if occurs_at(s, 0, from) {
        to + replaced(s.skip(from.len() as int), from, to)
    } else {
        seq![s[0]] + replaced(s.skip(1), from, to)
    }
}

/// Replacing by a text that is at least as long as the one replaced never shortens.
pub proof fn lemma_replaced_len(s: Seq<char>, from: Seq<char>, to: Seq<char>)
    requires
        from.len() <= to.len(),
    ensures
        replaced(s, from, to).len() >= s.len(),
    decreases s.len(),
{
    if from.len() == 0 || s.len() < from.len() {
    } else if occurs_at(s, 0, from) {
        lemma_replaced_len(s.skip(from.len() as int), from, to);
    } else {
        lemma_replaced_len(s.skip(1), from, to);
    }
}

/// The characters of a string slice, in order.
pub fn chars_of(s: &str) -> (chars: Vec<char>)
    ensures
        chars@ == s@,
{
    let mut chars: Vec<char> = Vec::new();
    for c in it: s.chars()
        invariant
            it.seq() == s@,
            chars@ == s@.take(it.index() as int),
    {
        chars.push(c);
    }
    chars
}

} // verus!
