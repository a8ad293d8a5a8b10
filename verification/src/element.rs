//! One XML element: an opening tag with its attributes, the content, and the closing tag.

use vstd::prelude::*;
use crate::attrs::{attr_string, make_attr_string};
use crate::name::resolved_name;
use crate::value::ConvertConfig;

verus! {

/// The element `<tag attrs>content</tag>`. The short form `<tag/>` is never used.
pub open spec fn element(
    tag: Seq<char>,
    attrs: Seq<(Seq<char>, Seq<char>)>,
    content: Seq<char>,
) -> Seq<char> {
    "<"@ + tag + attr_string(attrs) + ">"@ + content + "</"@ + tag + ">"@
}

/// The attributes of a generated element: the one that carries the key, if there is one, and
/// then `type` with the kind of the value, if the options ask for it.
pub open spec fn element_attrs(
    name_attr: Option<(Seq<char>, Seq<char>)>,
    kind: Seq<char>,
    config: ConvertConfig,
) -> Seq<(Seq<char>, Seq<char>)> {
    let named = match name_attr {
        Some(attr) => seq![attr],
        None => Seq::empty(),
    };
    if config.attr_type {
        named.push(("type"@, kind))
    } else {
        named
    }
}

/// The element for a value of the given kind under the tag as it is given.
pub open spec fn tagged(
    tag: Seq<char>,
    kind: Seq<char>,
    content: Seq<char>,
    config: ConvertConfig,
) -> Seq<char> {
    element(tag, element_attrs(None, kind, config), content)
}

/// The element for a value of the given kind under a key: the tag is the name that the key
/// resolves to, and the attribute that carries the key comes first.
pub open spec fn field(
    key: Seq<char>,
    kind: Seq<char>,
    content: Seq<char>,
    config: ConvertConfig,
) -> Seq<char> {
    let resolved = resolved_name(key);
    element(resolved.0, element_attrs(resolved.1, kind, config), content)
}

/// Renders an element with the attributes that the options ask for.
pub fn render_element(
    tag: &str,
    name_attr: Option<(String, String)>,
    kind: &str,
    content: &str,
    config: &ConvertConfig,
) -> (result: String)
    ensures
        result@ == element(tag@, element_attrs(name_attr.deep_view(), kind@, *config), content@),
{
    let mut attrs: Vec<(String, String)> = Vec::new();
    if let Some(attr) = name_attr {
        attrs.push(attr);
    }
    if config.attr_type {
        attrs.push((String::from_str("type"), String::from_str(kind)));
    }
    assert(attrs.deep_view() =~= element_attrs(name_attr.deep_view(), kind@, *config));
    let attr_text = make_attr_string(attrs.as_slice());
    let mut result = String::new();
    result.append("<");
    result.append(tag);
    result.append(attr_text.as_str());
    result.append(">");
    result.append(content);
    result.append("</");
    result.append(tag);
    result.append(">");
    assert(result@ =~= element(
        tag@,
        element_attrs(name_attr.deep_view(), kind@, *config),
        content@,
    ));
    result
}

} // verus!
