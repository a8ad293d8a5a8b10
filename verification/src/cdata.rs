//! CDATA sections: literal text that XML parsers take as it is.

use vstd::prelude::*;
use crate::text::{chars_of, lemma_replaced_len, occurs_at, replaced};

verus! {

/// What goes between the opening and the closing of a CDATA section for a text: the text itself,
/// with each `]]>` split so that the `]]` closes one section and the `>` starts the next.
pub open spec fn cdata_body(s: Seq<char>) -> Seq<char> {
    replaced(s, "]]>"@, "]]]]><![CDATA[>"@)
}

/// The CDATA section that holds a text.
pub open spec fn cdata_section(s: Seq<char>) -> Seq<char> {
    "<![CDATA["@ + cdata_body(s) + "]]>"@
}

/// The three fixed texts of a CDATA section, character by character.
pub proof fn lemma_cdata_texts()
    ensures
        "<![CDATA["@ == seq!['<', '!', '[', 'C', 'D', 'A', 'T', 'A', '['],
        "]]>"@ == seq![']', ']', '>'],
        "]]]]><![CDATA[>"@ == seq![
            ']',
            ']',
            ']',
            ']',
            '>',
            '<',
            '!',
            '[',
            'C',
            'D',
            'A',
            'T',
            'A',
            '[',
            '>',
        ],
{
    reveal_strlit("<![CDATA[");
    reveal_strlit("]]>");
    reveal_strlit("]]]]><![CDATA[>");
    assert("<![CDATA["@ =~= seq!['<', '!', '[', 'C', 'D', 'A', 'T', 'A', '[']);
    assert("]]>"@ =~= seq![']', ']', '>']);
    assert("]]]]><![CDATA[>"@ =~= seq![
        ']',
        ']',
        ']',
        ']',
        '>',
        '<',
        '!',
        '[',
        'C',
        'D',
        'A',
        'T',
        'A',
        '[',
        '>',
    ]);
}

/// A CDATA section opens with `<![CDATA[`, closes with `]]>`, and is at least twelve characters
/// longer than the text it holds.
pub proof fn lemma_cdata_section_frame(s: Seq<char>)
    ensures
        "<![CDATA["@.is_prefix_of(cdata_section(s)),
        "]]>"@.is_suffix_of(cdata_section(s)),
        cdata_section(s).len() >= s.len() + 12,
{
    lemma_cdata_texts();
    lemma_replaced_len(s, "]]>"@, "]]]]><![CDATA[>"@);
    let section = cdata_section(s);
    assert(section.subrange(0, 9) =~= "<![CDATA["@);
    assert(section.subrange(section.len() - 3, section.len() as int) =~= "]]>"@);
}

/// Wraps a text in a CDATA section. Nothing is escaped; a `]]>` in the text would end the
/// section early, so each one is split over two sections.
pub fn wrap_cdata(s: &str) -> (result: String)
    ensures
        result@ == cdata_section(s@),
        "<![CDATA["@.is_prefix_of(result@),
        "]]>"@.is_suffix_of(result@),
        result@.len() >= s@.len() + 12,
{
    let chars = chars_of(s);
    let n = chars.len();
    let mut result = String::new();
    result.append("<![CDATA[");
    let mut i: usize = 0;
    assert(s@.skip(0) =~= s@);
    assert(result@ =~= "<![CDATA["@);
    while i < n
        invariant
            i <= n,
            n == chars.len(),
            chars@ == s@,
            result@ + cdata_body(s@.skip(i as int)) == "<![CDATA["@ + cdata_body(s@),
        decreases n - i,
    {
        let ghost rest = s@.skip(i as int);
        let ghost before = result@;
        proof {
            lemma_cdata_texts();
        }
        if n - i >= 3 && chars[i] == ']' && chars[i + 1] == ']' && chars[i + 2] == '>' {
            result.append("]]]]><![CDATA[>");
            proof {
                assert(rest.subrange(0, 3) =~= "]]>"@);
                assert(rest.skip(3) =~= s@.skip(i + 3));
                assert(result@ + cdata_body(s@.skip(i + 3)) =~= before + cdata_body(rest));
            }
            i += 3;
        } else {
            result.push(chars[i]);
            proof {
                if rest.len() >= 3 {
                    assert(rest.subrange(0, 3)[0] == rest[0]);
                    assert(rest.subrange(0, 3)[1] == rest[1]);
                    assert(rest.subrange(0, 3)[2] == rest[2]);
                    assert(!occurs_at(rest, 0, "]]>"@));
                } else {
                    assert(seq![rest[0]] + rest.skip(1) =~= rest);
                }
                assert(rest.skip(1) =~= s@.skip(i + 1));
            }
            i += 1;
        }
    }
    result.append("]]>");
    proof {
        lemma_cdata_section_frame(s@);
    }
    result
}

} // verus!
