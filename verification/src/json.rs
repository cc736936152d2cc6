//! Parsed payloads: the library's own tree of JSON values, its mathematical
//! view, and the reading of a text into such a tree.
//!
//! The reading itself is done by `serde_json`, into the borrowed tree of
//! `serde_json_borrow`; it is trusted, and its result has a name,
//! [`json_parse`]. Everything the library decides about a parsed payload,
//! the number of decimal places of a float among it, is decided on
//! [`JsonValue`] and proved over [`JsonView`].

use vstd::prelude::*;

verus! {

/// A float, held as the two decimal texts that the library chooses between:
/// its default rendering, and its rendering with the number of decimal
/// places that the reader of the text asked for.
///
/// The default rendering of a float shows a fractional part exactly when the
/// value has one, so a whole value is recognised by a `shortest` text without
/// a point.
#[derive(Clone, Debug)]
pub struct FloatText {
    /// The default rendering: the shortest decimal text that reads back as
    /// the same float.
    pub shortest: String,
    /// The rendering with exactly as many digits after the point as were
    /// asked for.
    pub fixed: String,
}

/// A JSON number, held as what each of its three readings gives.
#[derive(Clone, Debug)]
pub struct JsonNumber {
    /// The number as a signed 64-bit integer, where it is one.
    pub signed: Option<i64>,
    /// The number as an unsigned 64-bit integer, where it is one.
    pub unsigned: Option<u64>,
    /// The number as a float, where it can be read as one.
    pub float: Option<FloatText>,
}

/// A JSON value. The members of an object are kept in the order of the
/// text, and a key may occur more than once.
#[derive(Debug)]
pub enum JsonValue {
    Null,
    Bool(bool),
    Number(JsonNumber),
    Str(String),
    Array(Vec<JsonValue>),
    Object(Vec<(String, JsonValue)>),
}

/// The view of a [`FloatText`].
pub struct FloatTextView {
    pub shortest: Seq<char>,
    pub fixed: Seq<char>,
}

/// The view of a [`JsonNumber`].
pub struct JsonNumberView {
    pub signed: Option<i64>,
    pub unsigned: Option<u64>,
    pub float: Option<FloatTextView>,
}

/// The view of a [`JsonValue`]: the same tree over sequences.
pub enum JsonView {
    Null,
    Bool(bool),
    Number(JsonNumberView),
    Str(Seq<char>),
    Array(Seq<JsonView>),
    Object(Seq<(Seq<char>, JsonView)>),
}

impl View for FloatText {
    type V = FloatTextView;

    open spec fn view(&self) -> FloatTextView {
        FloatTextView { shortest: self.shortest@, fixed: self.fixed@ }
    }
}

impl View for JsonNumber {
    type V = JsonNumberView;

    open spec fn view(&self) -> JsonNumberView {
        JsonNumberView {
            signed: self.signed,
            unsigned: self.unsigned,
            float: match self.float {
                Some(f) => Some(f@),
                None => None,
            },
        }
    }
}

/// The view of `value`: scalars as they are, and arrays and objects member
/// by member.
pub open spec fn value_view(value: JsonValue) -> JsonView
    decreases value,
{
    match value {
        JsonValue::Null => JsonView::Null,
        JsonValue::Bool(b) => JsonView::Bool(b),
        JsonValue::Number(n) => JsonView::Number(n@),
        JsonValue::Str(s) => JsonView::Str(s@),
        JsonValue::Array(items) => JsonView::Array(
            Seq::new(
                items.len() as nat,
                |i: int|
                    if 0 <= i < items.len() {
                        value_view(items[i])
                    } else {
                        JsonView::Null
                    },
            ),
        ),
        JsonValue::Object(members) => JsonView::Object(
            Seq::new(
                members.len() as nat,
                |i: int|
                    if 0 <= i < members.len() {
                        (members[i].0@, value_view(members[i].1))
                    } else {
                        (Seq::empty(), JsonView::Null)
                    },
            ),
        ),
    }
}

impl View for JsonValue {
    type V = JsonView;

    open spec fn view(&self) -> JsonView {
        value_view(*self)
    }
}

impl JsonView {
    /// Whether the value is an array or an object.
    pub open spec fn is_container(self) -> bool {
        self is Array || self is Object
    }
}

/// The view of an array is the array of the views of its items.
pub proof fn array_view_is_itemwise(items: Vec<JsonValue>)
    ensures
        JsonValue::Array(items)@ is Array,
        JsonValue::Array(items)@->Array_0.len() == items.len(),
        forall|i: int|
            0 <= i < items.len() ==> (#[trigger] JsonValue::Array(items)@->Array_0[i])
                == items[i]@,
{
}

/// The view of an object is the object of the views of its members, each
/// under the view of its key.
pub proof fn object_view_is_memberwise(members: Vec<(String, JsonValue)>)
    ensures
        JsonValue::Object(members)@ is Object,
        JsonValue::Object(members)@->Object_0.len() == members.len(),
        forall|i: int|
            0 <= i < members.len() ==> (#[trigger] JsonValue::Object(members)@->Object_0[i]) == (
                members[i].0@,
                members[i].1@,
            ),
{
}

/// The view of an optional value.
pub open spec fn option_view(value: Option<JsonValue>) -> Option<JsonView> {
    match value {
        Some(v) => Some(v@),
        None => None,
    }
}

/// What reading `text` as one JSON value gives: the value, its floats
/// rendered with `places` digits after the point beside their default
/// rendering, or `None` where the whole of `text` is not one JSON value.
pub uninterp spec fn json_parse(text: Seq<char>, places: u8) -> Option<JsonView>;

/// The borrowed JSON tree of `serde_json_borrow`, opaque to the proofs.
#[verifier::external_type_specification]
#[verifier::external_body]
pub struct ExBorrowedValue<'a>(serde_json_borrow::Value<'a>);

/// The JSON number of `serde_json_borrow`, opaque to the proofs.
#[verifier::external_type_specification]
#[verifier::external_body]
pub struct ExBorrowedNumber(serde_json_borrow::Number);

/// Trusted: the three readings of a `serde_json_borrow::Number`, `as_i64`,
/// `as_u64` and `as_f64`, each kept as it is returned; a float is kept as
/// the two texts that `format!` gives for it, without a precision and with
/// the precision `places`.
#[verifier::external_body]
fn import_number(n: &serde_json_borrow::Number, places: u8) -> JsonNumber {
    JsonNumber {
        signed: n.as_i64(),
        unsigned: n.as_u64(),
        float: n.as_f64().map(
            |x| FloatText {
                shortest: format!("{}", x),
                fixed: format!("{:.*}", usize::from(places), x),
            },
        ),
    }
}

/// Trusted: the copy of a `serde_json_borrow::Value` into a [`JsonValue`],
/// variant by variant, with the members of arrays and objects in their order.
#[verifier::external_body]
fn import_value(v: &serde_json_borrow::Value, places: u8) -> JsonValue {
    match v {
        serde_json_borrow::Value::Null => JsonValue::Null,
        serde_json_borrow::Value::Bool(b) => JsonValue::Bool(*b),
        serde_json_borrow::Value::Number(n) => JsonValue::Number(import_number(n, places)),
        serde_json_borrow::Value::Str(s) => JsonValue::Str(s.to_string()),
        serde_json_borrow::Value::Array(items) => JsonValue::Array(
            items.iter().map(|item| import_value(item, places)).collect(),
        ),
        serde_json_borrow::Value::Object(members) => JsonValue::Object(
            members.iter().map(|(k, m)| (k.to_string(), import_value(m, places))).collect(),
        ),
    }
}

/// Trusted: `serde_json::from_str` reads the whole of `text` as one
/// `serde_json_borrow::Value` or fails; the result, copied into the library's
/// tree with its floats rendered to `places` decimal places, is the named
/// value [`json_parse`] of the text and the places.
#[verifier::external_body]
pub(crate) fn parse_json(text: &str, places: u8) -> (parsed: Option<JsonValue>)
    ensures
        option_view(parsed) == json_parse(text@, places),
{
    serde_json::from_str::<serde_json_borrow::Value>(text).ok().map(|v| import_value(&v, places))
}

} // verus!
