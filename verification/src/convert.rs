//! The conversion of a value to XML text.

use vstd::prelude::*;
use crate::cdata::{cdata_section, wrap_cdata};
use crate::element::{field, render_element, tagged};
use crate::escape::{escape_xml, escaped};
use crate::name::{make_valid_xml_name, resolved_name};
use crate::number::{decimal, decimal_string};
use crate::value::{items_view, members_view, ConvertConfig, Value, ValueView};

verus! {

/// The name of the kind of a value, as the `type` attribute gives it.
pub open spec fn kind_of(value: ValueView) -> Seq<char> {
    match value {
        ValueView::Null => "null"@,
        ValueView::Bool(_) => "bool"@,
        ValueView::Int(_) => "int"@,
        ValueView::BigInt(_) => "int"@,
        ValueView::Float(_) => "float"@,
        ValueView::Str(_) => "str"@,
        ValueView::Array(_) => "list"@,
        ValueView::Object(_) => "dict"@,
    }
}

/// The content of the element for a string: a CDATA section if the options ask for one, the
/// escaped text otherwise.
pub open spec fn text_content(text: Seq<char>, config: ConvertConfig) -> Seq<char> {
    if config.cdata {
        cdata_section(text)
    } else {
        escaped(text)
    }
}

/// A boolean as text.
pub open spec fn bool_text(b: bool) -> Seq<char> {
    if b {
        "true"@
    } else {
        "false"@
    }
}

/// The content of the element for a value that is neither array nor object: nothing for null,
/// `true` or `false`, the decimal text of a number as it is, the text of a string escaped or in
/// a CDATA section.
pub open spec fn scalar_content(value: ValueView, config: ConvertConfig) -> Seq<char> {
    match value {
        ValueView::Null => Seq::empty(),
        ValueView::Bool(b) => bool_text(b),
        ValueView::Int(n) => decimal(n),
        ValueView::BigInt(digits) => digits,
        ValueView::Float(text) => text,
        ValueView::Str(text) => text_content(text, config),
        ValueView::Array(_) => Seq::empty(),
        ValueView::Object(_) => Seq::empty(),
    }
}

/// The tag of the elements of an array under the tag `parent`: `item` if elements are wrapped
/// and do not repeat the array's tag, else `parent`.
pub open spec fn item_tag(parent: Seq<char>, config: ConvertConfig) -> Seq<char> {
    if config.item_wrap && !config.list_headers {
        "item"@
    } else {
        parent
    }
}

/// The XML for the members of an object: the XML of each member, in order, with nothing
/// between them and nothing around them.
pub open spec fn dict_xml(members: Seq<(Seq<char>, ValueView)>, config: ConvertConfig) -> Seq<char>
    decreases members,
{
    if members.len() == 0 {
        Seq::empty()
    } else {
        dict_xml(members.drop_last(), config) + member_xml(
            members.last().0,
            members.last().1,
            config,
        )
    }
}

/// The XML for one member of an object. An object becomes an element named by the key. An
/// array becomes such an element only if its elements are wrapped in `item`; if not, its
/// elements stand alone, under the name that the key resolves to. Any other value becomes an
/// element named by the key.
pub open spec fn member_xml(key: Seq<char>, value: ValueView, config: ConvertConfig) -> Seq<char>
    decreases value,
{
    match value {
        ValueView::Object(members) => field(key, "dict"@, dict_xml(members, config), config),
        ValueView::Array(items) => {
            let inner = list_xml(items, resolved_name(key).0, config);
            if config.item_wrap {
                field(key, "list"@, inner, config)
            } else {
                inner
            }
        },
        _ => field(key, kind_of(value), scalar_content(value, config), config),
    }
}

/// The XML for the elements of an array under the tag `parent`: the XML of each element, in
/// order, with nothing between them and nothing around them.
pub open spec fn list_xml(
    items: Seq<ValueView>,
    parent: Seq<char>,
    config: ConvertConfig,
) -> Seq<char>
    decreases items,
{
    if items.len() == 0 {
        Seq::empty()
    } else {
        list_xml(items.drop_last(), parent, config) + item_xml(items.last(), parent, config)
    }
}

/// The XML for one element of an array under the tag `parent`. A value that is neither array
/// nor object always becomes an element, under the tag as it is given. An object or an array
/// becomes an element if the options ask for elements to be wrapped in `item` or in the
/// array's own tag; if not, what it holds stands alone.
pub open spec fn item_xml(item: ValueView, parent: Seq<char>, config: ConvertConfig) -> Seq<char>
    decreases item,
{
    let tag = item_tag(parent, config);
    let wrap = config.item_wrap || config.list_headers;
    match item {
        ValueView::Object(members) => {
            let inner = dict_xml(members, config);
            if wrap {
                tagged(tag, "dict"@, inner, config)
            } else {
                inner
            }
        },
        ValueView::Array(items) => {
            let inner = list_xml(items, tag, config);
            if wrap {
                tagged(tag, "list"@, inner, config)
            } else {
                inner
            }
        },
        _ => tagged(tag, kind_of(item), scalar_content(item, config), config),
    }
}

/// The XML for a value on its own: the members of an object, the elements of an array under
/// the tag `parent`, or one element named by the key `item_name`.
pub open spec fn value_xml(
    value: ValueView,
    parent: Seq<char>,
    config: ConvertConfig,
    item_name: Seq<char>,
) -> Seq<char> {
    match value {
        ValueView::Object(members) => dict_xml(members, config),
        ValueView::Array(items) => list_xml(items, parent, config),
        _ => field(item_name, kind_of(value), scalar_content(value, config), config),
    }
}

/// The document for a value: its XML under the root's name, and, if a root is asked for, the
/// XML declaration before it and the root element around it.
pub open spec fn document(
    value: ValueView,
    root: bool,
    custom_root: Seq<char>,
    config: ConvertConfig,
) -> Seq<char> {
    let content = value_xml(value, custom_root, config, custom_root);
    if root {
        "<?xml version=\"1.0\" encoding=\"UTF-8\" ?>"@ + "<"@ + custom_root + ">"@ + content + "</"@
            + custom_root + ">"@
    } else {
        content
    }
}

/// The name of the kind of a value.
fn kind_name(value: &Value) -> (kind: &'static str)
    ensures
        kind@ == kind_of(value@),
{
    match value {
        Value::Null => "null",
        Value::Bool(_) => "bool",
        Value::Int(_) => "int",
        Value::BigInt(_) => "int",
        Value::Float(_) => "float",
        Value::Str(_) => "str",
        Value::Array(_) => "list",
        Value::Object(_) => "dict",
    }
}

/// A boolean as text.
fn bool_name(b: bool) -> (text: &'static str)
    ensures
        text@ == bool_text(b),
{
    if b {
        "true"
    } else {
        "false"
    }
}

/// The content of the element for a string.
fn text_of(text: &str, config: &ConvertConfig) -> (content: String)
    ensures
        content@ == text_content(text@, *config),
{
    if config.cdata {
        wrap_cdata(text)
    } else {
        escape_xml(text)
    }
}

/// The content of the element for a value that is neither array nor object.
fn scalar_text(value: &Value, config: &ConvertConfig) -> (content: String)
    ensures
        content@ == scalar_content(value@, *config),
{
    match value {
        Value::Null => String::new(),
        Value::Bool(b) => String::from_str(bool_name(*b)),
        Value::Int(n) => decimal_string(*n),
        Value::BigInt(digits) => digits.clone(),
        Value::Float(text) => text.clone(),
        Value::Str(text) => text_of(text.as_str(), config),
        Value::Array(_) => String::new(),
        Value::Object(_) => String::new(),
    }
}

/// Converts a string under a key to one element. The content is the escaped text, or a CDATA
/// section if the options ask for one.
pub fn convert_string(key: &str, val: &str, config: &ConvertConfig) -> (xml: String)
    ensures
        xml@ == field(key@, "str"@, text_content(val@, *config), *config),
{
    let (xml_key, name_attr) = make_valid_xml_name(key);
    let content = text_of(val, config);
    render_element(xml_key.as_str(), name_attr, "str", content.as_str(), config)
}

/// Converts a number under a key to one element. The number comes as its decimal text, which
/// becomes the content as it is; `kind` is the kind to record, `int` or `float`.
pub fn convert_number(
    key: &str,
    val: &str,
    kind: &str,
    config: &ConvertConfig,
) -> (xml: String)
    ensures
        xml@ == field(key@, kind@, val@, *config),
{
    let (xml_key, name_attr) = make_valid_xml_name(key);
    render_element(xml_key.as_str(), name_attr, kind, val, config)
}

/// Converts a boolean under a key to one element with the content `true` or `false`.
pub fn convert_bool(key: &str, val: bool, config: &ConvertConfig) -> (xml: String)
    ensures
        xml@ == field(key@, "bool"@, bool_text(val), *config),
{
    let (xml_key, name_attr) = make_valid_xml_name(key);
    render_element(xml_key.as_str(), name_attr, "bool", bool_name(val), config)
}

/// Converts null under a key to one element without content.
pub fn convert_none(key: &str, config: &ConvertConfig) -> (xml: String)
    ensures
        xml@ == field(key@, "null"@, Seq::empty(), *config),
{
    let (xml_key, name_attr) = make_valid_xml_name(key);
    let xml = render_element(xml_key.as_str(), name_attr, "null", "", config);
    proof {
        reveal_strlit("");
        assert(""@ =~= Seq::<char>::empty());
    }
    xml
}

/// Converts a value on its own. An object gives the XML of its members and an array that of
/// its elements under the tag `parent`; any other value gives one element named by the key
/// `item_name`.
pub fn convert_value(
    obj: &Value,
    parent: &str,
    config: &ConvertConfig,
    item_name: &str,
) -> (xml: String)
    ensures
        xml@ == value_xml(obj@, parent@, *config, item_name@),
    decreases obj,
{
    match obj {
        Value::Null => convert_none(item_name, config),
        Value::Bool(val) => convert_bool(item_name, *val, config),
        Value::Int(val) => {
            let val_str = decimal_string(*val);
            convert_number(item_name, val_str.as_str(), "int", config)
        },
        Value::BigInt(digits) => convert_number(item_name, digits.as_str(), "int", config),
        Value::Float(text) => convert_number(item_name, text.as_str(), "float", config),
        Value::Str(val) => convert_string(item_name, val.as_str(), config),
        Value::Object(dict) => convert_dict(dict, parent, config),
        Value::Array(list) => convert_list(list, parent, config),
    }
}

/// Converts the members of an object, in order. Each member becomes one element named by its
/// key, but for an array whose elements are not wrapped in `item`: its elements stand alone.
pub fn convert_dict(
    dict: &Vec<(String, Value)>,
    _parent: &str,
    config: &ConvertConfig,
) -> (xml: String)
    ensures
        xml@ == dict_xml(members_view(dict@), *config),
    decreases dict,
{
    let ghost members = members_view(dict@);
    let mut output = String::new();
    let mut i: usize = 0;
    while i < dict.len()
        invariant
            i <= dict.len(),
            members == members_view(dict@),
            output@ == dict_xml(members.take(i as int), *config),
        decreases dict.len() - i,
    {
        let key = dict[i].0.as_str();
        let val = &dict[i].1;
        let (xml_key, name_attr) = make_valid_xml_name(key);
        let fragment = match val {
            Value::Object(nested_dict) => {
                let inner = convert_dict(nested_dict, xml_key.as_str(), config);
                render_element(xml_key.as_str(), name_attr, "dict", inner.as_str(), config)
            },
            Value::Array(list) => {
                let list_output = convert_list(list, xml_key.as_str(), config);
                if config.item_wrap {
                    render_element(
                        xml_key.as_str(),
                        name_attr,
                        "list",
                        list_output.as_str(),
                        config,
                    )
                } else {
                    list_output
                }
            },
            _ => {
                let content = scalar_text(val, config);
                render_element(
                    xml_key.as_str(),
                    name_attr,
                    kind_name(val),
                    content.as_str(),
                    config,
                )
            },
        };
        proof {
            assert(members.take(i + 1).drop_last() =~= members.take(i as int));
            assert(members.take(i + 1).last() == (key@, val@));
            assert(fragment@ == member_xml(key@, val@, *config));
        }
        output.append(fragment.as_str());
        i += 1;
    }
    assert(members.take(i as int) =~= members);
    output
}

/// Converts the elements of an array under the tag `parent`, in order. The tag of each element
/// is `item` if the options ask for elements wrapped in `item` and not in the array's own tag;
/// otherwise it is `parent`, as it is given. A value that is neither array nor object always
/// becomes one element. An object or an array becomes one element if elements are wrapped;
/// if not, what it holds stands alone.
pub fn convert_list(list: &Vec<Value>, parent: &str, config: &ConvertConfig) -> (xml: String)
    ensures
        xml@ == list_xml(items_view(list@), parent@, *config),
    decreases list,
{
    let ghost items = items_view(list@);
    let tag_name = if config.item_wrap && !config.list_headers {
        "item"
    } else {
        parent
    };
    let wrap = config.item_wrap || config.list_headers;
    let mut output = String::new();
    let mut i: usize = 0;
    while i < list.len()
        invariant
            i <= list.len(),
            items == items_view(list@),
            tag_name@ == item_tag(parent@, *config),
            wrap == (config.item_wrap || config.list_headers),
            output@ == list_xml(items.take(i as int), parent@, *config),
        decreases list.len() - i,
    {
        let item = &list[i];
        let fragment = match item {
            Value::Object(nested_dict) => {
                let inner = convert_dict(nested_dict, tag_name, config);
                if wrap {
                    render_element(tag_name, None, "dict", inner.as_str(), config)
                } else {
                    inner
                }
            },
            Value::Array(nested_list) => {
                let inner = convert_list(nested_list, tag_name, config);
                if wrap {
                    render_element(tag_name, None, "list", inner.as_str(), config)
                } else {
                    inner
                }
            },
            _ => {
                let content = scalar_text(item, config);
                render_element(tag_name, None, kind_name(item), content.as_str(), config)
            },
        };
        proof {
            assert(items.take(i + 1).drop_last() =~= items.take(i as int));
            assert(items.take(i + 1).last() == item@);
            assert(fragment@ == item_xml(item@, parent@, *config));
        }
        output.append(fragment.as_str());
        i += 1;
    }
    assert(items.take(i as int) =~= items);
    output
}

/// Converts a value to an XML document, as UTF-8. An object gives the XML of its members, an
/// array that of its elements under the root's name, any other value one element named by the
/// root's name. With `root`, the XML declaration comes first and an element with the root's
/// name, as it is given, goes around the rest.
pub fn dicttoxml(
    obj: &Value,
    root: bool,
    custom_root: &str,
    attr_type: bool,
    item_wrap: bool,
    cdata: bool,
    list_headers: bool,
) -> (bytes: Vec<u8>)
    ensures
        bytes@ == vstd::utf8::encode_utf8(
            document(
                obj@,
                root,
                custom_root@,
                (ConvertConfig { attr_type, cdata, item_wrap, list_headers }),
            ),
        ),
{
    let config = ConvertConfig { attr_type, cdata, item_wrap, list_headers };
    let content = convert_value(obj, custom_root, &config, custom_root);
    let output = if root {
        let mut output = String::new();
        output.append("<?xml version=\"1.0\" encoding=\"UTF-8\" ?>");
        output.append("<");
        output.append(custom_root);
        output.append(">");
        output.append(content.as_str());
        output.append("</");
        output.append(custom_root);
        output.append(">");
        output
    } else {
        content
    };
    output.as_str().as_bytes_vec()
}

} // verus!
