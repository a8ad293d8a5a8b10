//! Conversion of JSON-like values to XML text, with machine-checked contracts.
//!
//! A [`Value`] is null, a boolean, a number, a string, an array or an object. [`dicttoxml`]
//! turns one into an XML document. What the document holds is stated by spec functions over
//! the value's view, and every function here is proved to return exactly that.

pub mod attrs;
pub mod cdata;
pub mod convert;
pub mod element;
pub mod escape;
pub mod name;
pub mod number;
pub mod text;
pub mod value;

pub use attrs::make_attr_string;
pub use cdata::wrap_cdata;
pub use convert::{
    convert_bool, convert_dict, convert_list, convert_none, convert_number, convert_string,
    convert_value, dicttoxml,
};
pub use escape::escape_xml;
pub use name::{is_valid_xml_name, make_valid_xml_name};
pub use value::{ConvertConfig, Value, ValueView};
