//! JSON objects, built field by field.

use serde_json::Value;
use vstd::prelude::*;

verus! {

/// What a field of a JSON object holds.
#[verifier::ext_equal]
pub enum FieldView {
    /// A whole number.
    Number(int),
    /// A string.
    Text(Seq<char>),
    /// Anything else, by its own JSON text.
    Other(Seq<char>),
}

/// The fields of an object that has none.
pub open spec fn no_fields() -> Map<Seq<char>, FieldView> {
    Map::empty()
}

/// A JSON value of `serde_json`.
#[verifier::external_type_specification]
#[verifier::external_body]
pub struct ExValue(Value);

/// A JSON object of `serde_json`.
#[verifier::external_type_specification]
#[verifier::external_body]
#[verifier::reject_recursive_types(K)]
#[verifier::reject_recursive_types(V)]
pub struct ExObject<K, V>(serde_json::Map<K, V>);

/// The fields of an object.
pub uninterp spec fn object_fields(object: serde_json::Map<String, Value>) -> Map<
    Seq<char>,
    FieldView,
>;

/// The JSON text that `serde_json::to_string` writes for an object with these
/// fields.
pub uninterp spec fn object_text(fields: Map<Seq<char>, FieldView>) -> Seq<char>;

/// `serde_json::Map::new`: an object without fields.
#[verifier::external_body]
pub(crate) fn empty_object() -> (r: serde_json::Map<String, Value>)
    ensures
        object_fields(r) == no_fields(),
{
    serde_json::Map::new()
}

/// `serde_json::Map::insert` of a number: sets one field and leaves the others.
#[verifier::external_body]
pub(crate) fn insert_number(object: &mut serde_json::Map<String, Value>, name: &str, value: i32)
    ensures
        object_fields(*final(object)) == object_fields(*old(object)).insert(
            name@,
            FieldView::Number(value as int),
        ),
{
    object.insert(name.into(), Value::from(value));
}

/// `serde_json::Map::insert` of a text: sets one field and leaves the others.
#[verifier::external_body]
pub(crate) fn insert_text(object: &mut serde_json::Map<String, Value>, name: &str, value: &str)
    ensures
        object_fields(*final(object)) == object_fields(*old(object)).insert(
            name@,
            FieldView::Text(value@),
        ),
{
    object.insert(name.into(), Value::from(value));
}

/// `serde_json::to_string` of an object: its JSON text, which depends on its fields
/// alone, as they are written in the order of their names. The text itself is left
/// to the name [`object_text`]. Writing an object whose names are strings does not
/// fail.
#[verifier::external_body]
pub(crate) fn text_of_object(object: &serde_json::Map<String, Value>) -> (r: Option<String>)
    ensures
        r is Some,
        r->0@ == object_text(object_fields(*object)),
{
    serde_json::to_string(object).ok()
}

} // verus!
