//! The attribute list of an opening tag.

use vstd::prelude::*;
use crate::escape::{escape_xml, escaped};
use crate::text::{occurs_at, occurs_in};

verus! {

/// How an attribute opens: a space, the attribute's name, `=` and the opening quote.
pub open spec fn attr_opening(name: Seq<char>) -> Seq<char> {
    " "@ + name + "=\""@
}

/// One attribute as it stands in a tag: its opening, the escaped value and the closing quote.
pub open spec fn attr_fragment(name: Seq<char>, value: Seq<char>) -> Seq<char> {
    attr_opening(name) + escaped(value) + "\""@
}

/// The attributes of a tag, one fragment after the other in the order given.
pub open spec fn attr_string(attrs: Seq<(Seq<char>, Seq<char>)>) -> Seq<char>
    decreases attrs.len(),
{
    if attrs.len() == 0 {
        Seq::empty()
    } else {
        attr_string(attrs.drop_last()) + attr_fragment(attrs.last().0, attrs.last().1)
    }
}

/// Without attributes the attribute string is empty. With some it starts with a space and
/// holds the opening of each attribute.
pub proof fn lemma_attr_string_shape(attrs: Seq<(Seq<char>, Seq<char>)>)
    ensures
        attrs.len() == 0 ==> attr_string(attrs) == Seq::<char>::empty(),
        attrs.len() > 0 ==> attr_string(attrs).len() > 0 && attr_string(attrs)[0] == ' ',
        forall|i: int|
            0 <= i < attrs.len() ==> occurs_in(
                attr_string(attrs),
                attr_opening(#[trigger] attrs[i].0),
            ),
    decreases attrs.len(),
{
    if attrs.len() > 0 {
        let front = attrs.drop_last();
        let head = attr_string(front);
        let opening = attr_opening(attrs.last().0);
        let tail = attr_fragment(attrs.last().0, attrs.last().1);
        let whole = attr_string(attrs);
        lemma_attr_string_shape(front);
        reveal_strlit(" ");
        assert(opening[0] == ' ');
        assert(whole[0] == ' ');
        assert forall|i: int| 0 <= i < attrs.len() implies occurs_in(
            whole,
            attr_opening(#[trigger] attrs[i].0),
        ) by {
            let pattern = attr_opening(attrs[i].0);
            if i < front.len() {
                assert(front[i] == attrs[i]);
                let at = choose|at: int| occurs_at(head, at, pattern);
                assert(whole.subrange(at, at + pattern.len()) =~= head.subrange(
                    at,
                    at + pattern.len(),
                ));
                assert(occurs_at(whole, at, pattern));
            } else {
                let at = head.len() as int;
                assert(whole.subrange(at, at + pattern.len()) =~= pattern);
                assert(occurs_at(whole, at, pattern));
            }
        }
    }
}

/// Renders attributes as they stand in an opening tag: for each pair a space, the name, `="`,
/// the escaped value and `"`. Without attributes the result is empty.
pub fn make_attr_string(attrs: &[(String, String)]) -> (result: String)
    ensures
        result@ == attr_string(attrs.deep_view()),
        attrs@.len() == 0 ==> result@.len() == 0,
        attrs@.len() > 0 ==> result@.len() > 0 && result@[0] == ' ',
        forall|i: int|
            0 <= i < attrs@.len() ==> occurs_in(result@, attr_opening(#[trigger] attrs@[i].0@)),
{
    let ghost pairs = attrs.deep_view();
    let mut result = String::new();
    let mut i: usize = 0;
    while i < attrs.len()
        invariant
            i <= attrs@.len(),
            pairs == attrs.deep_view(),
            result@ == attr_string(pairs.take(i as int)),
        decreases attrs@.len() - i,
    {
        let value = escape_xml(attrs[i].1.as_str());
        result.append(" ");
        result.append(attrs[i].0.as_str());
        result.append("=\"");
        result.append(value.as_str());
        result.append("\"");
        proof {
            assert(pairs.take(i + 1).drop_last() =~= pairs.take(i as int));
            assert(pairs.take(i + 1).last() == (attrs@[i as int].0@, attrs@[i as int].1@));
        }
        i += 1;
    }
    proof {
        assert(pairs.take(i as int) =~= pairs);
        lemma_attr_string_shape(pairs);
        assert forall|j: int| 0 <= j < attrs@.len() implies occurs_in(
            result@,
            attr_opening(#[trigger] attrs@[j].0@),
        ) by {
            assert(pairs[j].0 == attrs@[j].0@);
        }
    }
    result
}

} // verus!
