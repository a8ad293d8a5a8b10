//! The values that can be converted, and the options of a conversion.

use vstd::prelude::*;

verus! {

/// A JSON-like value. Arrays and objects keep the order of their elements; an object may hold
/// the same key more than once.
#[derive(Debug)]
pub enum Value {
    Null,
    Bool(bool),
    /// An integer that fits in 64 bits.
    Int(i64),
    /// An integer beyond the range of `Int`, as its decimal text.
    BigInt(String),
    /// A floating-point number, as its decimal text.
    Float(String),
    Str(String),
    Array(Vec<Value>),
    Object(Vec<(String, Value)>),
}

/// What a `Value` stands for: the same tree over mathematical integers, texts and sequences.
pub enum ValueView {
    Null,
    Bool(bool),
    Int(int),
    BigInt(Seq<char>),
    Float(Seq<char>),
    Str(Seq<char>),
    Array(Seq<ValueView>),
    Object(Seq<(Seq<char>, ValueView)>),
}

/// The views of the elements of an array, in order.
pub open spec fn items_view(items: Seq<Value>) -> Seq<ValueView>
    decreases items,
{
    Seq::new(
        items.len(),
        |i: int|
            if 0 <= i < items.len() {
                items[i].view()
            } else {
                ValueView::Null
            },
    )
}

/// The views of the members of an object, in order.
pub open spec fn members_view(members: Seq<(String, Value)>) -> Seq<(Seq<char>, ValueView)>
    decreases members,
{
    Seq::new(
        members.len(),
        |i: int|
            if 0 <= i < members.len() {
                (members[i].0@, members[i].1.view())
            } else {
                (Seq::empty(), ValueView::Null)
            },
    )
}

impl View for Value {
    type V = ValueView;

    open spec fn view(&self) -> ValueView
        decreases self,
    {
        match self {
            Value::Null => ValueView::Null,
            Value::Bool(b) => ValueView::Bool(*b),
            Value::Int(n) => ValueView::Int(*n as int),
            Value::BigInt(digits) => ValueView::BigInt(digits@),
            Value::Float(text) => ValueView::Float(text@),
            Value::Str(text) => ValueView::Str(text@),
            Value::Array(items) => ValueView::Array(items_view(items@)),
            Value::Object(members) => ValueView::Object(members_view(members@)),
        }
    }
}

/// The options of a conversion.
#[derive(Debug, Clone, Copy)]
pub struct ConvertConfig {
    /// Whether each element gets a `type` attribute that names the kind of its value.
    pub attr_type: bool,
    /// Whether strings are put in CDATA sections rather than escaped.
    pub cdata: bool,
    /// Whether each element of an array is wrapped in an element called `item`.
    pub item_wrap: bool,
    /// Whether each element of an array is wrapped in an element named as the array's key.
    pub list_headers: bool,
}

} // verus!
