//! JSON: the objects the library writes, and what it reads out of the ones it
//! is sent.

use crate::text::texts;
use vstd::prelude::*;

verus! {

/// A value in an object.
#[derive(Debug)]
pub enum JsonValue {
    Null,
    Bool(bool),
    Int(i64),
    Count(u64),
    Text(String),
    Texts(Vec<String>),
}

/// A named value in an object.
#[derive(Debug)]
pub struct Field {
    pub name: String,
    pub value: JsonValue,
}

/// What a value says.
pub ghost enum JsonView {
    Null,
    Bool(bool),
    Int(int),
    Text(Seq<char>),
    Texts(Seq<Seq<char>>),
}

impl View for JsonValue {
    type V = JsonView;

    open spec fn view(&self) -> JsonView {
        match self {
            JsonValue::Null => JsonView::Null,
            JsonValue::Bool(b) => JsonView::Bool(*b),
            JsonValue::Int(n) => JsonView::Int(*n as int),
            JsonValue::Count(n) => JsonView::Int(*n as int),
            JsonValue::Text(t) => JsonView::Text(t@),
            JsonValue::Texts(ts) => JsonView::Texts(texts(ts@)),
        }
    }
}

/// What an object says: its names and values, in order.
pub open spec fn fields_of(fields: Seq<Field>) -> Seq<(Seq<char>, JsonView)> {
    fields.map_values(|f: Field| (f.name@, f.value@))
}

/// The text of an object with these names and values, in this order.
pub uninterp spec fn json_text(fields: Seq<(Seq<char>, JsonView)>) -> Seq<char>;

/// The text of a string.
pub uninterp spec fn json_string_text(s: Seq<char>) -> Seq<char>;

/// What stands at a pointer in a body: nothing where the body is no JSON, else
/// the string there, where there is one.
pub uninterp spec fn json_string_at(body: Seq<u8>, pointer: Seq<char>) -> Option<Option<Seq<char>>>;

/// `serde_json::Serializer`, fed a map through `serde::Serializer::collect_map`:
/// the compact text depends on the names and the values alone, in their order.
#[verifier::external_body]
pub(crate) fn json_object(fields: &Vec<Field>) -> (r: String)
    ensures
        r@ == json_text(fields_of(fields@)),
{
    let mut out: Vec<u8> = Vec::new();
    let pairs = fields.iter().map(|f| (f.name.as_str(), match &f.value {
        JsonValue::Null => serde_json::Value::Null,
        JsonValue::Bool(b) => serde_json::Value::from(*b),
        JsonValue::Int(n) => serde_json::Value::from(*n),
        JsonValue::Count(n) => serde_json::Value::from(*n),
        JsonValue::Text(t) => serde_json::Value::from(t.as_str()),
        JsonValue::Texts(ts) => serde_json::Value::from(ts.clone()),
    }));
    let mut json = serde_json::Serializer::new(&mut out);
    serde::Serializer::collect_map(&mut json, pairs).expect("plain values always serialize");
    String::from_utf8(out).expect("JSON text is UTF-8")
}

/// `serde_json::to_string` of a string: its quoted, escaped text, which
/// depends on the string alone.
#[verifier::external_body]
pub(crate) fn json_string(s: &str) -> (r: String)
    ensures
        r@ == json_string_text(s@),
{
    serde_json::to_string(s).expect("a string always serializes")
}

/// `serde_json::from_slice` into a `serde_json::Value`, then `Value::pointer`
/// and `Value::as_str`: whether the body is JSON, and the string that stands
/// at the pointer, both of which depend on the body and the pointer alone.
#[verifier::external_body]
pub(crate) fn string_at(body: &[u8], pointer: &str) -> (r: Option<Option<String>>)
    ensures
        r is Some <==> json_string_at(body@, pointer@) is Some,
        r matches Some(found) ==> crate::table::opt_text(found) == json_string_at(
            body@,
            pointer@,
        )->0,
{
    let value: serde_json::Value = serde_json::from_slice(body).ok()?;
    Some(value.pointer(pointer).and_then(|v| v.as_str()).map(|s| s.to_owned()))
}

/// A named text.
pub fn text_field(name: &str, value: &str) -> (r: Field)
    ensures
        (r.name@, r.value@) == (name@, JsonView::Text(value@)),
{
    Field { name: name.to_owned(), value: JsonValue::Text(value.to_owned()) }
}

/// A named number.
pub fn int_field(name: &str, value: i64) -> (r: Field)
    ensures
        (r.name@, r.value@) == (name@, JsonView::Int(value as int)),
{
    Field { name: name.to_owned(), value: JsonValue::Int(value) }
}

/// A named count.
pub fn count_field(name: &str, value: u64) -> (r: Field)
    ensures
        (r.name@, r.value@) == (name@, JsonView::Int(value as int)),
{
    Field { name: name.to_owned(), value: JsonValue::Count(value) }
}

/// A named truth value.
pub fn bool_field(name: &str, value: bool) -> (r: Field)
    ensures
        (r.name@, r.value@) == (name@, JsonView::Bool(value)),
{
    Field { name: name.to_owned(), value: JsonValue::Bool(value) }
}

/// A value says what it holds, and an object its names and values in order.
pub proof fn values_say_what_they_hold(
    b: bool,
    n: i64,
    c: u64,
    t: String,
    ts: Vec<String>,
    fields: Seq<Field>,
    i: int,
)
    requires
        0 <= i < fields.len(),
    ensures
        JsonValue::Null@ == JsonView::Null,
        JsonValue::Bool(b)@ == JsonView::Bool(b),
        JsonValue::Int(n)@ == JsonView::Int(n as int),
        JsonValue::Count(c)@ == JsonView::Int(c as int),
        JsonValue::Text(t)@ == JsonView::Text(t@),
        JsonValue::Texts(ts)@ is Texts,
        JsonValue::Texts(ts)@->Texts_0.len() == ts@.len(),
        forall|k: int|
            0 <= k < ts@.len() ==> #[trigger] JsonValue::Texts(ts)@->Texts_0[k] == ts@[k]@,
        fields_of(fields).len() == fields.len(),
        fields_of(fields)[i] == (fields[i].name@, fields[i].value@),
{
}

} // verus!
