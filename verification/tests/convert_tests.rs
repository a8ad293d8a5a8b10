use json2xml_rs::convert::{
    convert_bool, convert_dict, convert_list, convert_none, convert_number, convert_string,
    convert_value, dicttoxml,
};
use json2xml_rs::value::{ConvertConfig, Value};

const DECLARATION: &str = "<?xml version=\"1.0\" encoding=\"UTF-8\" ?>";

fn config(attr_type: bool, cdata: bool, item_wrap: bool, list_headers: bool) -> ConvertConfig {
    ConvertConfig { attr_type, cdata, item_wrap, list_headers }
}

fn defaults() -> ConvertConfig {
    config(true, false, true, false)
}

fn text(bytes: Vec<u8>) -> String {
    String::from_utf8(bytes).unwrap()
}

fn s(text: &str) -> String {
    text.to_string()
}

#[test]
fn document_of_object_with_array_under_defaults() {
    let obj = Value::Object(vec![
        (s("a"), Value::Int(1)),
        (s("b"), Value::Array(vec![Value::Bool(true), Value::Null])),
    ]);
    let xml = text(dicttoxml(&obj, true, "root", true, true, false, false));
    assert_eq!(
        xml,
        format!(
            "{}<root><a type=\"int\">1</a><b type=\"list\"><item type=\"bool\">true</item><item type=\"null\"></item></b></root>",
            DECLARATION
        )
    );
    assert!(xml.contains("<a type=\"int\">1</a>"));
    assert!(xml.contains("<item type=\"bool\">true</item>"));
    assert!(xml.contains("<item type=\"null\"></item>"));
    assert!(xml.starts_with(DECLARATION));
    assert!(xml.ends_with("</root>"));
}

#[test]
fn list_headers_tag_each_element_with_the_key() {
    let dict = vec![(s("b"), Value::Array(vec![Value::Int(1), Value::Int(2)]))];
    assert_eq!(convert_dict(&dict, "root", &config(false, false, false, true)), "<b>1</b><b>2</b>");
    assert_eq!(
        convert_dict(&dict, "root", &config(true, false, false, true)),
        "<b type=\"int\">1</b><b type=\"int\">2</b>"
    );
}

#[test]
fn list_headers_with_item_wrap_keep_the_outer_element() {
    let dict = vec![(
        s("b"),
        Value::Array(vec![Value::Object(vec![(s("c"), Value::Int(1))])]),
    )];
    assert_eq!(
        convert_dict(&dict, "root", &config(true, false, true, true)),
        "<b type=\"list\"><b type=\"dict\"><c type=\"int\">1</c></b></b>"
    );
}

#[test]
fn unwrapped_array_splices_objects_and_tags_scalars_with_the_key() {
    let dict = vec![(
        s("b"),
        Value::Array(vec![
            Value::Int(1),
            Value::Object(vec![(s("c"), Value::Int(2)), (s("d"), Value::Null)]),
            Value::Object(vec![]),
        ]),
    )];
    assert_eq!(
        convert_dict(&dict, "root", &config(true, false, false, false)),
        "<b type=\"int\">1</b><c type=\"int\">2</c><d type=\"null\"></d>"
    );
}

#[test]
fn unwrapped_array_splices_nested_arrays() {
    let list = vec![
        Value::Array(vec![Value::Int(1), Value::Int(2)]),
        Value::Array(vec![Value::Int(3)]),
    ];
    assert_eq!(
        convert_list(&list, "n", &config(false, false, false, false)),
        "<n>1</n><n>2</n><n>3</n>"
    );
}

#[test]
fn wrapped_array_wraps_nested_arrays_and_objects() {
    let list = vec![
        Value::Array(vec![Value::Int(1)]),
        Value::Object(vec![(s("k"), Value::Bool(false))]),
    ];
    assert_eq!(
        convert_list(&list, "n", &defaults()),
        "<item type=\"list\"><item type=\"int\">1</item></item><item type=\"dict\"><k type=\"bool\">false</k></item>"
    );
    assert_eq!(
        convert_list(&list, "n", &config(false, false, false, true)),
        "<n><n>1</n></n><n><k>false</k></n>"
    );
}

#[test]
fn array_elements_take_the_tag_as_given() {
    let list = vec![Value::Str(s("x"))];
    assert_eq!(
        convert_list(&list, "my tag", &config(false, false, false, false)),
        "<my tag>x</my tag>"
    );
}

#[test]
fn empty_containers_give_no_text() {
    assert_eq!(convert_dict(&vec![], "root", &defaults()), "");
    assert_eq!(convert_list(&vec![], "root", &defaults()), "");
    assert_eq!(
        text(dicttoxml(&Value::Object(vec![]), true, "root", true, true, false, false)),
        format!("{}<root></root>", DECLARATION)
    );
    assert_eq!(text(dicttoxml(&Value::Array(vec![]), false, "root", true, true, false, false)), "");
}

#[test]
fn nested_object_becomes_an_element_of_kind_dict() {
    let dict = vec![(s("outer"), Value::Object(vec![(s("inner"), Value::Str(s("v")))]))];
    assert_eq!(
        convert_dict(&dict, "root", &defaults()),
        "<outer type=\"dict\"><inner type=\"str\">v</inner></outer>"
    );
    assert_eq!(
        convert_dict(&dict, "root", &config(false, false, true, false)),
        "<outer><inner>v</inner></outer>"
    );
}

#[test]
fn keys_that_are_no_names_are_replaced_or_carried() {
    let dict = vec![
        (s("my key"), Value::Str(s("a"))),
        (s("123"), Value::Null),
        (s("-bad"), Value::Int(7)),
        (s("a&b"), Value::Bool(true)),
        (s("xmlish"), Value::Object(vec![])),
    ];
    assert_eq!(
        convert_dict(&dict, "root", &defaults()),
        "<my_key type=\"str\">a</my_key><n123 type=\"null\"></n123><key name=\"-bad\" type=\"int\">7</key><key name=\"a&amp;amp;b\" type=\"bool\">true</key><key name=\"xmlish\" type=\"dict\"></key>"
    );
}

#[test]
fn unwrapped_array_under_a_key_that_is_no_name_loses_the_key() {
    let dict = vec![(s("-bad"), Value::Array(vec![Value::Int(1)]))];
    assert_eq!(convert_dict(&dict, "root", &config(false, false, false, false)), "<key>1</key>");
    assert_eq!(
        convert_dict(&dict, "root", &config(false, false, true, false)),
        "<key name=\"-bad\"><item>1</item></key>"
    );
}

#[test]
fn duplicate_keys_are_kept_in_order() {
    let dict = vec![(s("a"), Value::Int(1)), (s("a"), Value::Int(2))];
    assert_eq!(convert_dict(&dict, "root", &config(false, false, true, false)), "<a>1</a><a>2</a>");
}

#[test]
fn strings_are_escaped_or_put_in_cdata() {
    assert_eq!(
        convert_string("k", "a < b & c", &defaults()),
        "<k type=\"str\">a &lt; b &amp; c</k>"
    );
    assert_eq!(
        convert_string("k", "a < b ]]> c", &config(true, true, true, false)),
        "<k type=\"str\"><![CDATA[a < b ]]]]><![CDATA[> c]]></k>"
    );
    assert_eq!(convert_string("k", "", &config(false, false, true, false)), "<k></k>");
}

#[test]
fn numbers_keep_their_text() {
    assert_eq!(convert_number("n", "42", "int", &defaults()), "<n type=\"int\">42</n>");
    assert_eq!(convert_number("n", "1.5e300", "float", &defaults()), "<n type=\"float\">1.5e300</n>");
    assert_eq!(convert_number("1", "-0.5", "float", &config(false, false, true, false)), "<n1>-0.5</n1>");
}

#[test]
fn booleans_and_null_have_fixed_content() {
    assert_eq!(convert_bool("b", true, &defaults()), "<b type=\"bool\">true</b>");
    assert_eq!(convert_bool("b", false, &config(false, false, true, false)), "<b>false</b>");
    assert_eq!(convert_none("z", &defaults()), "<z type=\"null\"></z>");
    assert_eq!(convert_none("a b", &config(false, false, true, false)), "<a_b></a_b>");
}

#[test]
fn integers_are_written_in_decimal() {
    let c = config(false, false, true, false);
    assert_eq!(convert_value(&Value::Int(0), "p", &c, "n"), "<n>0</n>");
    assert_eq!(convert_value(&Value::Int(7), "p", &c, "n"), "<n>7</n>");
    assert_eq!(convert_value(&Value::Int(10), "p", &c, "n"), "<n>10</n>");
    assert_eq!(convert_value(&Value::Int(-1), "p", &c, "n"), "<n>-1</n>");
    assert_eq!(convert_value(&Value::Int(1234567890), "p", &c, "n"), "<n>1234567890</n>");
    assert_eq!(
        convert_value(&Value::Int(i64::MAX), "p", &c, "n"),
        "<n>9223372036854775807</n>"
    );
    assert_eq!(
        convert_value(&Value::Int(i64::MIN), "p", &c, "n"),
        "<n>-9223372036854775808</n>"
    );
    for n in [-1000i64, -99, -10, -9, 9, 99, 100, 101, 65535, 4294967296] {
        assert_eq!(
            convert_value(&Value::Int(n), "p", &c, "n"),
            format!("<n>{}</n>", n)
        );
    }
}

#[test]
fn integers_beyond_64_bits_keep_every_digit() {
    let big = "123456789012345678901234567890";
    assert_eq!(
        convert_value(&Value::BigInt(s(big)), "p", &defaults(), "n"),
        format!("<n type=\"int\">{}</n>", big)
    );
    let list = vec![Value::BigInt(s("-18446744073709551616"))];
    assert_eq!(
        convert_list(&list, "p", &defaults()),
        "<item type=\"int\">-18446744073709551616</item>"
    );
}

#[test]
fn floats_are_of_kind_float() {
    let dict = vec![(s("f"), Value::Float(s("3.25")))];
    assert_eq!(convert_dict(&dict, "root", &defaults()), "<f type=\"float\">3.25</f>");
    assert_eq!(
        convert_value(&Value::Float(s("-0.1")), "p", &config(false, false, true, false), "f"),
        "<f>-0.1</f>"
    );
}

#[test]
fn value_on_its_own_is_named_by_the_item_name() {
    assert_eq!(
        convert_value(&Value::Str(s("hi")), "parent", &defaults(), "my item"),
        "<my_item type=\"str\">hi</my_item>"
    );
    assert_eq!(
        convert_value(&Value::Null, "parent", &defaults(), "item"),
        "<item type=\"null\"></item>"
    );
    assert_eq!(
        convert_value(&Value::Bool(true), "parent", &defaults(), "item"),
        "<item type=\"bool\">true</item>"
    );
}

#[test]
fn value_that_holds_others_ignores_the_item_name() {
    let obj = Value::Object(vec![(s("a"), Value::Int(1))]);
    assert_eq!(convert_value(&obj, "parent", &defaults(), "ignored"), "<a type=\"int\">1</a>");
    let list = Value::Array(vec![Value::Int(1)]);
    assert_eq!(
        convert_value(&list, "parent", &config(true, false, false, false), "ignored"),
        "<parent type=\"int\">1</parent>"
    );
}

#[test]
fn document_of_a_scalar_names_it_by_the_root() {
    assert_eq!(
        text(dicttoxml(&Value::Str(s("hi")), true, "root", true, true, false, false)),
        format!("{}<root><root type=\"str\">hi</root></root>", DECLARATION)
    );
    assert_eq!(
        text(dicttoxml(&Value::Int(5), false, "value", false, true, false, false)),
        "<value>5</value>"
    );
}

#[test]
fn document_of_an_array_tags_elements_by_the_options() {
    let list = Value::Array(vec![Value::Int(1), Value::Int(2)]);
    assert_eq!(
        text(dicttoxml(&list, true, "root", true, true, false, false)),
        format!("{}<root><item type=\"int\">1</item><item type=\"int\">2</item></root>", DECLARATION)
    );
    assert_eq!(
        text(dicttoxml(&list, true, "things", false, false, false, false)),
        format!("{}<things><things>1</things><things>2</things></things>", DECLARATION)
    );
}

#[test]
fn document_without_root_is_the_content_alone() {
    let obj = Value::Object(vec![(s("a"), Value::Str(s("x")))]);
    assert_eq!(
        text(dicttoxml(&obj, false, "root", true, true, false, false)),
        "<a type=\"str\">x</a>"
    );
}

#[test]
fn root_element_takes_the_name_as_given() {
    assert_eq!(
        text(dicttoxml(&Value::Null, true, "my root", false, true, false, false)),
        format!("{}<my root><my_root></my_root></my root>", DECLARATION)
    );
}

#[test]
fn document_is_utf8() {
    let obj = Value::Object(vec![(s("café"), Value::Str(s("thé & 日本語")))]);
    let bytes = dicttoxml(&obj, false, "root", false, true, false, false);
    assert_eq!(bytes, "<café>thé &amp; 日本語</café>".as_bytes().to_vec());
}

#[test]
fn cdata_applies_to_strings_only() {
    let dict = vec![
        (s("s"), Value::Str(s("<x>"))),
        (s("n"), Value::Int(1)),
        (s("l"), Value::Array(vec![Value::Str(s("&"))])),
    ];
    assert_eq!(
        convert_dict(&dict, "root", &config(false, true, true, false)),
        "<s><![CDATA[<x>]]></s><n>1</n><l><item><![CDATA[&]]></item></l>"
    );
}

#[test]
fn deeply_nested_values_convert() {
    let mut value = Value::Int(1);
    for _ in 0..50 {
        value = Value::Array(vec![value]);
    }
    let xml = text(dicttoxml(&value, false, "r", false, true, false, false));
    assert_eq!(xml, format!("{}1{}", "<item>".repeat(50), "</item>".repeat(50)));
}
