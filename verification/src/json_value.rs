//! The boundary to the `json` crate.
//!
//! A `json::JsonValue` is opaque to the verifier. What one holds is spoken
//! of through [`json_view`], and each function below makes exactly one call
//! into the crate. The contracts of these functions are taken from the
//! crate's source and are believed, not proved.

use vstd::prelude::*;

verus! {

/// `json::JsonValue`, a JSON value. Nothing of its inside is known here.
#[verifier::external_type_specification]
#[verifier::external_body]
pub struct ExJsonValue(json::JsonValue);

/// `json::Error`, the failure that an operation on the wrong kind of value
/// reports. Nothing of its inside is known here.
#[verifier::external_type_specification]
#[verifier::external_body]
pub struct ExJsonError(json::Error);

/// What a JSON value holds.
///
/// The members of an object stand in the order in which the object hands
/// them out, which is the order in which their keys were first set. A
/// number is kept as the text it is written as.
pub enum Json {
    Null,
    Boolean(bool),
    Number(Seq<char>),
    Text(Seq<char>),
    List(Seq<Json>),
    Object(Seq<(Seq<char>, Json)>),
}

/// What `value` holds.
pub uninterp spec fn json_view(value: json::JsonValue) -> Json;

/// The text that `json::JsonValue::dump` writes for a value that holds
/// `value`.
pub uninterp spec fn json_text(value: Json) -> Seq<char>;

/// Some member of `members` has the key `key`.
pub open spec fn has_key(members: Seq<(Seq<char>, Json)>, key: Seq<char>) -> bool {
    exists|i: int| 0 <= i < members.len() && (#[trigger] members[i]).0 == key
}

/// The members of an object after `key` was set to `value`: a member that
/// has the key keeps its place and gets the value; where there is none, the
/// pair is added at the end.
pub open spec fn with_member(
    members: Seq<(Seq<char>, Json)>,
    key: Seq<char>,
    value: Json,
) -> Seq<(Seq<char>, Json)> {
    if has_key(members, key) {
        members.map_values(
            |member: (Seq<char>, Json)|
                if member.0 == key {
                    (key, value)
                } else {
                    member
                },
        )
    } else {
        members.push((key, value))
    }
}

/// `json::JsonValue::new_array`: an array without items.
#[verifier::external_body]
pub(crate) fn new_array() -> (value: json::JsonValue)
    ensures
        json_view(value) == Json::List(Seq::empty()),
{
    json::JsonValue::new_array()
}

/// `json::JsonValue::new_object`: an object without members.
#[verifier::external_body]
pub(crate) fn new_object() -> (value: json::JsonValue)
    ensures
        json_view(value) == Json::Object(Seq::empty()),
{
    json::JsonValue::new_object()
}

/// `json::Null`, the null value.
#[verifier::external_body]
pub(crate) fn null() -> (value: json::JsonValue)
    ensures
        json_view(value) == Json::Null,
{
    json::Null
}

/// `From<&str>` for `json::JsonValue`: a string value with the same text.
#[verifier::external_body]
pub(crate) fn text(content: &str) -> (value: json::JsonValue)
    ensures
        json_view(value) == Json::Text(content@),
{
    json::JsonValue::from(content)
}

/// `IndexMut<&str>` for `json::JsonValue`, assigned to: `object[key] = value`.
/// On an object this sets the member `key` to `value`, overwriting in
/// place a member that has the key and adding one at the end otherwise.
#[verifier::external_body]
pub(crate) fn set_member(object: &mut json::JsonValue, key: &str, value: json::JsonValue)
    requires
        json_view(*old(object)) is Object,
    ensures
        json_view(*final(object)) == Json::Object(
            with_member(json_view(*old(object))->Object_0, key@, json_view(value)),
        ),
{
    object[key] = value;
}

/// `json::JsonValue::push`: on an array, adds `item` at the end and returns
/// `Ok`; on any other value, changes nothing and returns `Err`.
#[verifier::external_body]
pub(crate) fn push(array: &mut json::JsonValue, item: json::JsonValue) -> (pushed: Result<
    (),
    json::Error,
>)
    ensures
        json_view(*old(array)) is List ==> pushed is Ok && json_view(*final(array)) == Json::List(
            json_view(*old(array))->List_0.push(json_view(item)),
        ),
        !(json_view(*old(array)) is List) ==> pushed is Err && json_view(*final(array))
            == json_view(*old(array)),
{
    array.push(item)
}

/// `json::JsonValue::dump`: the value written as JSON text, without
/// spaces or line breaks.
#[verifier::external_body]
pub(crate) fn dump(value: &json::JsonValue) -> (written: String)
    ensures
        written@ == json_text(json_view(*value)),
{
    value.dump()
}

} // verus!
