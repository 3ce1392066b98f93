//! JSON values.
//!
//! A value is a `serde_json::Value`, which the verifier cannot look into. What
//! it holds is named by [`json_content`], and each function of `serde_json` that
//! the daemon calls is described over that name.

use vstd::prelude::*;

verus! {

/// What a JSON value holds. A number is given by the text it is written as.
pub enum Json {
    Null,
    Bool(bool),
    Num(Seq<char>),
    Str(Seq<char>),
    Arr(Seq<Json>),
    Obj(Map<Seq<char>, Json>),
}

/// `serde_json::Value`, a JSON value. What it holds is named by [`json_content`].
#[verifier::external_type_specification]
#[verifier::external_body]
pub struct ExValue(serde_json::Value);

/// `serde_json::Error`, which says why a text is not JSON. Nothing is claimed of it.
#[verifier::external_type_specification]
#[verifier::external_body]
pub struct ExError(serde_json::Error);

/// `serde_json::Map`, the members of a JSON object. What it holds, with strings for
/// names and values for members, is named by [`object_content`].
#[verifier::external_type_specification]
#[verifier::external_body]
#[verifier::reject_recursive_types(K)]
#[verifier::reject_recursive_types(V)]
pub struct ExMap<K, V>(serde_json::Map<K, V>);

/// What a JSON value holds: a number by the text that it is written as, an object
/// by its members.
pub uninterp spec fn json_content(value: serde_json::Value) -> Json;

/// The members of a JSON object.
pub uninterp spec fn object_content(
    object: serde_json::Map<String, serde_json::Value>,
) -> Map<Seq<char>, Json>;

/// What `serde_json::from_str` reads the text `text` as; `None` where it refuses it.
pub uninterp spec fn json_parse(text: Seq<char>) -> Option<Json>;

/// The compact text that `serde_json` writes a value as.
pub uninterp spec fn json_print(content: Json) -> Seq<char>;

/// The member `key` of a value; `None` where the value is no object or has no
/// such member.
pub open spec fn member(content: Json, key: Seq<char>) -> Option<Json> {
    match content {
        Json::Obj(members) => if members.contains_key(key) {
            Some(members[key])
        } else {
            None
        },
        _ => None,
    }
}

/// The text of a value; `None` where it is no string.
pub open spec fn text_of(content: Json) -> Option<Seq<char>> {
    match content {
        Json::Str(s) => Some(s),
        _ => None,
    }
}

/// Whether every number in a value is written as an integer, and arrays and objects
/// are nested at most `depth` deep.
pub open spec fn plain(content: Json, depth: nat) -> bool
    decreases depth,
{
    match content {
        Json::Null => true,
        Json::Bool(_) => true,
        Json::Num(text) => !text.contains('.') && !text.contains('e'),
        Json::Str(_) => true,
        Json::Arr(items) => depth > 0 && forall|i: int|
            0 <= i < items.len() ==> plain(#[trigger] items[i], (depth - 1) as nat),
        Json::Obj(members) => depth > 0 && forall|key: Seq<char>| #[trigger]
            members.contains_key(key) ==> plain(members[key], (depth - 1) as nat),
    }
}

/// How deep arrays and objects may be nested in a text that is read.
pub open spec fn max_depth() -> nat {
    127
}

/// Whether `text` is the compact JSON text of a value: on one line, and read back
/// as that value where the value is plain.
pub open spec fn written(text: Seq<char>, content: Json) -> bool {
    &&& text == json_print(content)
    &&& !text.contains('\n')
    &&& plain(content, max_depth()) ==> json_parse(text) == Some(content)
}

/// The members of the empty object.
pub open spec fn no_members() -> Map<Seq<char>, Json> {
    Map::empty()
}

/// `n` in decimal notation, with a sign where it is negative.
pub open spec fn signed_decimal(n: int) -> Seq<char> {
    if n < 0 {
        seq!['-'] + crate::text::decimal((-n) as nat)
    } else {
        crate::text::decimal(n as nat)
    }
}

/// The contents of a list of values.
pub open spec fn contents(values: Seq<serde_json::Value>) -> Seq<Json> {
    values.map_values(|value: serde_json::Value| json_content(value))
}

/// `serde_json::from_str`, read into a `Value`: the value that the text stands
/// for, or an error where the text is not JSON. Which texts are JSON, and how
/// deep they may nest, is left to the name [`json_parse`].
#[verifier::external_body]
pub(crate) fn parse(text: &str) -> (parsed: Result<serde_json::Value, serde_json::Error>)
    ensures
        match json_parse(text@) {
            Some(content) => parsed is Ok && json_content(parsed->Ok_0) == content,
            None => parsed is Err,
        },
{
    serde_json::from_str(text)
}

/// `serde_json::Value::get` with a string: the member of that name, where the
/// value is an object that has it.
#[verifier::external_body]
pub(crate) fn get<'a>(value: &'a serde_json::Value, key: &str) -> (found: Option<
    &'a serde_json::Value,
>)
    ensures
        match member(json_content(*value), key@) {
            Some(content) => found is Some && json_content(*found->Some_0) == content,
            None => found is None,
        },
{
    value.get(key)
}

/// `serde_json::Value::as_str`: the text of a string value.
#[verifier::external_body]
pub(crate) fn as_str(value: &serde_json::Value) -> (found: Option<&str>)
    ensures
        match text_of(json_content(*value)) {
            Some(text) => found is Some && found->Some_0@ == text,
            None => found is None,
        },
{
    value.as_str()
}

/// `serde_json::Value::clone`: a value that holds the same.
#[verifier::external_body]
pub(crate) fn copy(value: &serde_json::Value) -> (copied: serde_json::Value)
    ensures
        json_content(copied) == json_content(*value),
{
    value.clone()
}

/// `serde_json::Value`'s `Display`, without the alternate flag: the compact text
/// of the value. What the value holds decides the text, as the members of an
/// object are written in the order of their names. The text holds no line feed:
/// the compact form has no space between its tokens, and a line feed in a string is
/// written as an escape. `serde_json::from_str` reads it back as the same value,
/// unless the value is nested deeper than that function goes, or has a number that
/// is no integer: such a number may lose its last digit when it is read.
#[verifier::external_body]
pub(crate) fn print(value: &serde_json::Value) -> (text: String)
    ensures
        text@ == json_print(json_content(*value)),
        !text@.contains('\n'),
        plain(json_content(*value), max_depth()) ==> json_parse(text@) == Some(
            json_content(*value),
        ),
{
    value.to_string()
}

/// `serde_json::Value::Null`.
#[verifier::external_body]
pub(crate) fn null() -> (value: serde_json::Value)
    ensures
        json_content(value) == Json::Null,
{
    serde_json::Value::Null
}

/// `serde_json::Value::Bool`.
#[verifier::external_body]
pub(crate) fn boolean(flag: bool) -> (value: serde_json::Value)
    ensures
        json_content(value) == Json::Bool(flag),
{
    serde_json::Value::Bool(flag)
}

/// `serde_json::Value::from` on an `i64`: the number, written in decimal.
#[verifier::external_body]
pub(crate) fn integer(n: i64) -> (value: serde_json::Value)
    ensures
        json_content(value) == Json::Num(signed_decimal(n as int)),
{
    serde_json::Value::from(n)
}

/// `serde_json::Value::String`.
#[verifier::external_body]
pub(crate) fn string(text: &str) -> (value: serde_json::Value)
    ensures
        json_content(value) == Json::Str(text@),
{
    serde_json::Value::String(text.to_string())
}

/// `serde_json::Value::Array`.
#[verifier::external_body]
pub(crate) fn array(items: Vec<serde_json::Value>) -> (value: serde_json::Value)
    ensures
        json_content(value) == Json::Arr(contents(items@)),
{
    serde_json::Value::Array(items)
}

/// `serde_json::Map::new`: an object without members.
#[verifier::external_body]
pub(crate) fn new_object() -> (object: serde_json::Map<String, serde_json::Value>)
    ensures
        object_content(object) == no_members(),
{
    serde_json::Map::new()
}

/// `serde_json::Map::insert`: sets the member `key`, whether or not the object
/// had one of that name. The value that it replaces is dropped.
#[verifier::external_body]
pub(crate) fn insert(
    object: &mut serde_json::Map<String, serde_json::Value>,
    key: &str,
    value: serde_json::Value,
)
    ensures
        object_content(*final(object)) == object_content(*old(object)).insert(
            key@,
            json_content(value),
        ),
{
    object.insert(key.to_string(), value);
}

/// `serde_json::Value::Object`.
#[verifier::external_body]
pub(crate) fn object(members: serde_json::Map<String, serde_json::Value>) -> (value:
    serde_json::Value)
    ensures
        json_content(value) == Json::Obj(object_content(members)),
{
    serde_json::Value::Object(members)
}

/// What is written for a value is its JSON text, on one line, and is read back where the
/// value is plain to the depth that is read.
pub proof fn law_written_is_the_text_on_one_line(text: Seq<char>, content: Json)
    requires
        written(text, content),
    ensures
        text == json_print(content),
        forall|i: int| 0 <= i < text.len() ==> #[trigger] text[i] != '\n',
        plain(content, 127) ==> json_parse(text) == Some(content),
{
}

/// A member is found exactly where the value is an object that has it, and the contents of
/// values are taken one for one.
pub proof fn law_content_is_read_as_it_stands(
    members: Map<Seq<char>, Json>,
    key: Seq<char>,
    text: Seq<char>,
    values: Seq<serde_json::Value>,
    i: int,
)
    requires
        0 <= i < values.len(),
    ensures
        members.contains_key(key) ==> member(Json::Obj(members), key) == Some(members[key]),
        !members.contains_key(key) ==> member(Json::Obj(members), key) is None,
        text_of(Json::Str(text)) == Some(text),
        text_of(Json::Obj(members)) is None,
        contents(values).len() == values.len(),
        contents(values)[i] == json_content(values[i]),
        no_members().dom().is_empty(),
{
}

/// A value is plain where it is a text, a switch, nothing, or an integer, and a list or an
/// object is plain, one level deeper, exactly where everything in it is.
pub proof fn law_plain_values(
    flag: bool,
    text: Seq<char>,
    items: Seq<Json>,
    members: Map<Seq<char>, Json>,
    depth: nat,
)
    ensures
        plain(Json::Null, depth),
        plain(Json::Bool(flag), depth),
        plain(Json::Str(text), depth),
        plain(Json::Num(text), depth) <==> !text.contains('.') && !text.contains('e'),
        plain(Json::Arr(items), depth + 1) <==> forall|i: int|
            0 <= i < items.len() ==> plain(#[trigger] items[i], depth),
        plain(Json::Obj(members), depth + 1) <==> forall|key: Seq<char>| #[trigger]
            members.contains_key(key) ==> plain(members[key], depth),
        !plain(Json::Arr(items), 0),
        !plain(Json::Obj(members), 0),
{
    reveal_with_fuel(plain, 2);
    assert((depth + 1 - 1) as nat == depth);
    let list = Json::Arr(items);
    let object = Json::Obj(members);
    if plain(list, depth + 1) {
        assert forall|i: int| 0 <= i < items.len() implies plain(#[trigger] items[i], depth) by {
            assert(plain(list->Arr_0[i], ((depth + 1) as nat - 1) as nat));
        }
    }
    if plain(object, depth + 1) {
        assert forall|key: Seq<char>| #[trigger] members.contains_key(key) implies plain(
            members[key],
            depth,
        ) by {
            assert(object->Obj_0.contains_key(key));
        }
    }
}

} // verus!
