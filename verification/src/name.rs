//! XML names: which keys can serve as element names, and what to use in place of the others.

use vstd::prelude::*;
use crate::escape::{
    escape_xml, escaped, is_plain, is_reserved, lemma_entity_texts, lemma_escaped_plain,
};
use crate::text::{alphabetic, alphanumeric, chars_of, is_ascii_digit};

verus! {

/// Whether a character may open a name, given whether it is alphabetic: a letter, or `_`.
pub open spec fn opens_name(c: char, alphabetic: bool) -> bool {
    alphabetic || c == '_'
}

/// Whether a character may stand after the first in a name, given whether it is alphabetic or
/// numeric: a letter, a digit, or one of `-`, `_`, `.`, `:`.
pub open spec fn continues_name(c: char, alphanumeric: bool) -> bool {
    alphanumeric || c == '-' || c == '_' || c == '.' || c == ':'
}

/// Whether a character may open a name: a letter of any script, or `_`.
pub open spec fn is_name_start(c: char) -> bool {
    opens_name(c, alphabetic(c))
}

/// Whether a character may stand after the first in a name: a letter or digit of any script, or
/// one of `-`, `_`, `.`, `:`.
pub open spec fn is_name_char(c: char) -> bool {
    continues_name(c, alphanumeric(c))
}

/// Whether a text begins with `xml` in any mix of upper and lower case. No character outside
/// ASCII has `x`, `m` or `l` as its lowercase form, so this is what a comparison of the
/// lowercased text with `xml` would find.
pub open spec fn has_reserved_prefix(s: Seq<char>) -> bool {
    &&& s.len() >= 3
    &&& (s[0] == 'x' || s[0] == 'X')
    &&& (s[1] == 'm' || s[1] == 'M')
    &&& (s[2] == 'l' || s[2] == 'L')
}

/// Whether a text can serve as the name of an element or attribute.
pub open spec fn is_valid_name(s: Seq<char>) -> bool {
    &&& s.len() > 0
    &&& is_name_start(s[0])
    &&& forall|i: int| 1 <= i < s.len() ==> is_name_char(#[trigger] s[i])
    &&& !has_reserved_prefix(s)
}

/// Whether a text consists of the digits `0` to `9` alone. The empty text does.
pub open spec fn is_all_digits(s: Seq<char>) -> bool {
    forall|i: int| 0 <= i < s.len() ==> is_ascii_digit(#[trigger] s[i])
}

/// A text with each space replaced by `_`.
pub open spec fn underscored(s: Seq<char>) -> Seq<char> {
    s.map_values(
        |c: char|
            if c == ' ' {
                '_'
            } else {
                c
            },
    )
}

/// The element name to use for a key, and the attribute that carries the key where the name
/// cannot. The key is escaped first. If that is a valid name, it is the name. If it is made of
/// digits, the name is `n` followed by the digits. If it becomes valid with `_` for each space,
/// that is the name. Otherwise the name is `key`, and the attribute `name` holds the escaped key.
pub open spec fn resolved_name(key: Seq<char>) -> (Seq<char>, Option<(Seq<char>, Seq<char>)>) {
    let safe = escaped(key);
    if is_valid_name(safe) {
        (safe, None)
    } else if is_all_digits(safe) {
        ("n"@ + safe, None)
    } else if is_valid_name(underscored(safe)) {
        (underscored(safe), None)
    } else {
        ("key"@, Some(("name"@, safe)))
    }
}

/// No name is empty, starts with a digit, holds a space, or begins with `xml` in any case.
pub proof fn lemma_invalid_names(s: Seq<char>)
    ensures
        s.len() == 0 ==> !is_valid_name(s),
        s.len() > 0 && is_ascii_digit(s[0]) ==> !is_valid_name(s),
        s.contains(' ') ==> !is_valid_name(s),
        has_reserved_prefix(s) ==> !is_valid_name(s),
{
    if s.contains(' ') {
        let i = choose|i: int| 0 <= i < s.len() && s[i] == ' ';
        assert(!is_name_start(s[i]));
        assert(!is_name_char(s[i]));
    }
}

/// A key made of digits alone gets the name `n` followed by the key, and no attribute.
pub proof fn lemma_digits_get_prefix(key: Seq<char>)
    requires
        is_all_digits(key),
    ensures
        resolved_name(key) == ("n"@ + key, None::<(Seq<char>, Seq<char>)>),
        resolved_name(key).0[0] == 'n',
{
    assert(is_plain(key)) by {
        assert forall|i: int| 0 <= i < key.len() implies !is_reserved(#[trigger] key[i]) by {
            assert(is_ascii_digit(key[i]));
        }
    }
    lemma_escaped_plain(key);
    lemma_invalid_names(key);
    reveal_strlit("n");
}

/// Whatever the key, the name it resolves to is a valid name. Where an attribute comes with it,
/// the name is `key` and the attribute is `name` with the escaped key.
pub proof fn lemma_resolved_name_is_valid(key: Seq<char>)
    ensures
        is_valid_name(resolved_name(key).0),
        resolved_name(key).1 matches Some(attr) ==> {
            &&& resolved_name(key).0 == "key"@
            &&& attr == ("name"@, escaped(key))
        },
{
    let safe = escaped(key);
    reveal_strlit("n");
    reveal_strlit("key");
    if !is_valid_name(safe) && is_all_digits(safe) {
        let name = "n"@ + safe;
        assert forall|i: int| 1 <= i < name.len() implies is_name_char(#[trigger] name[i]) by {
            assert(is_ascii_digit(safe[i - 1]));
        }
    }
}

/// A key that holds a reserved character never serves as a name, with or without underscores:
/// the name is `key`, and the attribute `name` carries the escaped key.
pub proof fn lemma_reserved_key_is_carried(key: Seq<char>)
    requires
        !is_plain(key),
    ensures
        resolved_name(key) == ("key"@, Some(("name"@, escaped(key)))),
{
    let safe = escaped(key);
    lemma_escaped_has_ampersand(key);
    let i = choose|i: int| 0 <= i < safe.len() && safe[i] == '&';
    assert(!is_name_start(safe[i]) && !is_name_char(safe[i]) && !is_ascii_digit(safe[i]));
    assert(underscored(safe)[i] == '&');
}

/// The escaped form of a text that holds a reserved character holds an `&`.
proof fn lemma_escaped_has_ampersand(s: Seq<char>)
    requires
        !is_plain(s),
    ensures
        escaped(s).contains('&'),
    decreases s.len(),
{
    let head = escaped(s.drop_last());
    if s.len() > 0 {
        lemma_entity_texts();
        if is_reserved(s.last()) {
            assert(escaped(s)[head.len() as int] == '&');
        } else {
            assert(!is_plain(s.drop_last())) by {
                if is_plain(s.drop_last()) {
                    assert forall|i: int| 0 <= i < s.len() implies !is_reserved(#[trigger] s[i]) by {
                        if i < s.len() - 1 {
                            assert(s.drop_last()[i] == s[i]);
                        }
                    }
                }
            }
            lemma_escaped_has_ampersand(s.drop_last());
            let i = choose|i: int| 0 <= i < head.len() && head[i] == '&';
            assert(escaped(s)[i] == '&');
        }
    }
}

/// Tells whether a character may open a name, given whether it is alphabetic.
pub fn may_open_name(c: char, alphabetic: bool) -> (ok: bool)
    ensures
        ok == opens_name(c, alphabetic),
{
    alphabetic || c == '_'
}

/// Tells whether a character may stand after the first in a name, given whether it is
/// alphabetic or numeric.
pub fn may_continue_name(c: char, alphanumeric: bool) -> (ok: bool)
    ensures
        ok == continues_name(c, alphanumeric),
{
    alphanumeric || c == '-' || c == '_' || c == '.' || c == ':'
}

/// Tells whether a key can serve as an XML name as it is: it is not empty, it starts with a
/// letter or `_`, it goes on with letters, digits, `-`, `_`, `.` and `:` only, and it does not
/// begin with `xml` in any mix of upper and lower case.
pub fn is_valid_xml_name(key: &str) -> (valid: bool)
    ensures
        valid == is_valid_name(key@),
        key@.len() == 0 ==> !valid,
        key@.len() > 0 && is_ascii_digit(key@[0]) ==> !valid,
        key@.contains(' ') ==> !valid,
        has_reserved_prefix(key@) ==> !valid,
{
    proof {
        lemma_invalid_names(key@);
    }
    let chars = chars_of(key);
    let n = chars.len();
    if n == 0 {
        return false;
    }
    let first = chars[0];
    if !may_open_name(first, first.is_alphabetic()) {
        return false;
    }
    let mut i: usize = 1;
    while i < n
        invariant
            1 <= i <= n,
            n == chars.len(),
            chars@ == key@,
            forall|j: int| 1 <= j < i ==> is_name_char(#[trigger] chars@[j]),
        decreases n - i,
    {
        let c = chars[i];
        if !may_continue_name(c, c.is_alphanumeric()) {
            return false;
        }
        i += 1;
    }
    !starts_with_xml(&chars)
}

/// Tells whether a text begins with `xml` in any mix of upper and lower case.
fn starts_with_xml(chars: &Vec<char>) -> (reserved: bool)
    ensures
        reserved == has_reserved_prefix(chars@),
{
    chars.len() >= 3 && (chars[0] == 'x' || chars[0] == 'X') && (chars[1] == 'm' || chars[1]
        == 'M') && (chars[2] == 'l' || chars[2] == 'L')
}

/// Tells whether a text consists of the digits `0` to `9` alone.
fn all_ascii_digits(s: &str) -> (all: bool)
    ensures
        all == is_all_digits(s@),
{
    for c in it: s.chars()
        invariant
            it.seq() == s@,
            is_all_digits(s@.take(it.index() as int)),
    {
        if !('0' <= c && c <= '9') {
            assert(!is_ascii_digit(s@[it.index() as int]));
            return false;
        }
        assert forall|i: int| 0 <= i < it.index() + 1 implies is_ascii_digit(
            #[trigger] s@.take(it.index() + 1)[i],
        ) by {
            if i < it.index() {
                assert(s@.take(it.index() as int)[i] == s@[i]);
            }
        }
    }
    assert(s@.take(s@.len() as int) == s@);
    true
}

/// Copies a text, writing `_` for each space.
fn spaces_to_underscores(s: &str) -> (result: String)
    ensures
        result@ == underscored(s@),
{
    let mut result = String::new();
    for c in it: s.chars()
        invariant
            it.seq() == s@,
            result@ == underscored(s@.take(it.index() as int)),
    {
        if c == ' ' {
            result.push('_');
        } else {
            result.push(c);
        }
        assert(result@ =~= underscored(s@.take(it.index() + 1)));
    }
    assert(s@.take(s@.len() as int) == s@);
    result
}

/// Finds the element name for a key, and the attribute that carries the key where no name can
/// be made of it.
pub fn make_valid_xml_name(key: &str) -> (result: (String, Option<(String, String)>))
    ensures
        result.deep_view() == resolved_name(key@),
        is_valid_name(result.0@),
        is_all_digits(key@) ==> {
            &&& result.0@ == "n"@ + key@
            &&& result.0@[0] == 'n'
            &&& result.1 is None
        },
{
    proof {
        lemma_resolved_name_is_valid(key@);
        if is_all_digits(key@) {
            lemma_digits_get_prefix(key@);
        }
    }
    let safe = escape_xml(key);
    if is_valid_xml_name(safe.as_str()) {
        return (safe, None);
    }
    if all_ascii_digits(safe.as_str()) {
        let name = String::from_str("n").concat(safe.as_str());
        return (name, None);
    }
    let with_underscores = spaces_to_underscores(safe.as_str());
    if is_valid_xml_name(with_underscores.as_str()) {
        return (with_underscores, None);
    }
    (String::from_str("key"), Some((String::from_str("name"), safe)))
}

} // verus!
