//! Escaping of the five characters that XML reserves in text and attribute values.

use vstd::prelude::*;
use crate::text::occurs_at;

verus! {

/// The characters that may not stand for themselves in XML text.
pub open spec fn is_reserved(c: char) -> bool {
    c == '&' || c == '"' || c == '\'' || c == '<' || c == '>'
}

/// What one character becomes: its named entity if it is reserved, itself otherwise.
pub open spec fn escaped_char(c: char) -> Seq<char> {
    if c == '&' {
        "&amp;"@
    } else if c == '"' {
        "&quot;"@
    } else if c == '\'' {
        "&apos;"@
    } else if c == '<' {
        "&lt;"@
    } else if c == '>' {
        "&gt;"@
    } else {
        seq![c]
    }
}

/// The escaped form of a text: `escaped_char` of each character, in order.
pub open spec fn escaped(s: Seq<char>) -> Seq<char>
    decreases s.len(),
{
    if s.len() == 0 {
        Seq::empty()
    } else {
        escaped(s.drop_last()) + escaped_char(s.last())
    }
}

/// Whether one of the five named entities stands in `s` at offset `at`.
pub open spec fn entity_at(s: Seq<char>, at: int) -> bool {
    ||| occurs_at(s, at, "&amp;"@)
    ||| occurs_at(s, at, "&quot;"@)
    ||| occurs_at(s, at, "&apos;"@)
    ||| occurs_at(s, at, "&lt;"@)
    ||| occurs_at(s, at, "&gt;"@)
}

/// Whether a text is free of quotes and angle brackets, and every `&` in it opens a named entity.
pub open spec fn is_escaped_text(s: Seq<char>) -> bool {
    forall|i: int|
        0 <= i < s.len() ==> {
            &&& s[i] != '"' && s[i] != '\'' && s[i] != '<' && s[i] != '>'
            &&& #[trigger] s[i] == '&' ==> entity_at(s, i)
        }
}

/// Whether a text holds none of the reserved characters.
pub open spec fn is_plain(s: Seq<char>) -> bool {
    forall|i: int| 0 <= i < s.len() ==> !is_reserved(#[trigger] s[i])
}

/// The five entities, character by character.
pub proof fn lemma_entity_texts()
    ensures
        "&amp;"@ == seq!['&', 'a', 'm', 'p', ';'],
        "&quot;"@ == seq!['&', 'q', 'u', 'o', 't', ';'],
        "&apos;"@ == seq!['&', 'a', 'p', 'o', 's', ';'],
        "&lt;"@ == seq!['&', 'l', 't', ';'],
        "&gt;"@ == seq!['&', 'g', 't', ';'],
{
    reveal_strlit("&amp;");
    reveal_strlit("&quot;");
    reveal_strlit("&apos;");
    reveal_strlit("&lt;");
    reveal_strlit("&gt;");
    assert("&amp;"@ =~= seq!['&', 'a', 'm', 'p', ';']);
    assert("&quot;"@ =~= seq!['&', 'q', 'u', 'o', 't', ';']);
    assert("&apos;"@ =~= seq!['&', 'a', 'p', 'o', 's', ';']);
    assert("&lt;"@ =~= seq!['&', 'l', 't', ';']);
    assert("&gt;"@ =~= seq!['&', 'g', 't', ';']);
}

/// Escaping never shortens a text.
pub proof fn lemma_escaped_len(s: Seq<char>)
    ensures
        escaped(s).len() >= s.len(),
    decreases s.len(),
{
    if s.len() > 0 {
        lemma_entity_texts();
        lemma_escaped_len(s.drop_last());
    }
}

/// A text without reserved characters is its own escaped form.
pub proof fn lemma_escaped_plain(s: Seq<char>)
    requires
        is_plain(s),
    ensures
        escaped(s) == s,
    decreases s.len(),
{
    if s.len() == 0 {
        assert(escaped(s) =~= s);
    } else {
        assert(!is_reserved(s.last()));
        lemma_escaped_plain(s.drop_last());
        assert(s.drop_last() + seq![s.last()] =~= s);
    }
}

/// Escaped text holds no quote and no angle bracket, and each `&` in it opens one of the five
/// entities.
pub proof fn lemma_escaped_is_escaped_text(s: Seq<char>)
    ensures
        is_escaped_text(escaped(s)),
    decreases s.len(),
{
    if s.len() > 0 {
        let head = escaped(s.drop_last());
        let tail = escaped_char(s.last());
        let whole = escaped(s);
        lemma_escaped_is_escaped_text(s.drop_last());
        lemma_entity_texts();
        assert forall|i: int| 0 <= i < whole.len() implies {
            &&& whole[i] != '"' && whole[i] != '\'' && whole[i] != '<' && whole[i] != '>'
            &&& #[trigger] whole[i] == '&' ==> entity_at(whole, i)
        } by {
            if i < head.len() {
                assert(whole[i] == head[i]);
                if head[i] == '&' {
                    assert(entity_at(head, i));
                    assert forall|pattern: Seq<char>| occurs_at(head, i, pattern) implies occurs_at(
                        whole,
                        i,
                        pattern,
                    ) by {
                        assert(whole.subrange(i, i + pattern.len()) =~= head.subrange(
                            i,
                            i + pattern.len(),
                        ));
                    }
                }
            } else {
                assert(whole[i] == tail[i - head.len()]);
                if whole[i] == '&' {
                    assert(i == head.len());
                    assert(whole.subrange(i, i + tail.len()) =~= tail);
                    assert(occurs_at(whole, i, tail));
                }
            }
        }
    }
}

/// Replaces each of `&`, `"`, `'`, `<`, `>` by its named entity, in one pass from left to right,
/// and copies every other character as it is.
pub fn escape_xml(s: &str) -> (result: String)
    ensures
        result@ == escaped(s@),
        result@.len() >= s@.len(),
        is_plain(s@) ==> result@ == s@,
        is_escaped_text(result@),
{
    let mut result = String::new();
    for c in it: s.chars()
        invariant
            it.seq() == s@,
            result@ == escaped(s@.take(it.index() as int)),
    {
        assert(s@.take(it.index() + 1).drop_last() == s@.take(it.index() as int));
        if c == '&' {
            result.append("&amp;");
        } else if c == '"' {
            result.append("&quot;");
        } else if c == '\'' {
            result.append("&apos;");
        } else if c == '<' {
            result.append("&lt;");
        } else if c == '>' {
            result.append("&gt;");
        } else {
            result.push(c);
        }
    }
    proof {
        assert(s@.take(s@.len() as int) == s@);
        lemma_escaped_len(s@);
        lemma_escaped_is_escaped_text(s@);
        if is_plain(s@) {
            lemma_escaped_plain(s@);
        }
    }
    result
}

} // verus!
