//! JSON values: as `serde_json` holds them, and as the rules for a tool's
//! arguments read them.
use vstd::prelude::*;
use vstd::string::*;

verus! {

/// `serde_json::Value`, seen only through the functions below.
#[verifier::external_type_specification]
#[verifier::external_body]
pub struct ExValue(serde_json::Value);

/// `serde_json::Map`, seen only through the functions below.
#[verifier::external_type_specification]
#[verifier::external_body]
#[verifier::reject_recursive_types(K)]
#[verifier::reject_recursive_types(V)]
pub struct ExMap<K, V>(serde_json::Map<K, V>);

/// A JSON object.
pub type JsonObject = serde_json::Map<String, serde_json::Value>;

/// The contents of a JSON value. A number is known by the text that
/// `serde_json` writes for it.
pub enum Json {
    Null,
    Bool(bool),
    Number(Seq<char>),
    Text(Seq<char>),
    Array(Seq<Json>),
    Object(Map<Seq<char>, Json>),
}

/// What a `serde_json::Value` holds.
pub uninterp spec fn json_of(value: serde_json::Value) -> Json;

/// What a `serde_json::Map` holds: the contents of each value by its key.
pub uninterp spec fn entries_of(
    object: serde_json::Map<String, serde_json::Value>,
) -> Map<Seq<char>, Json>;

/// The compact JSON text that `serde_json` writes for a value.
pub uninterp spec fn json_text(json: Json) -> Seq<char>;

/// How a value is written as JSON. Null, the flags and numbers are written
/// plainly; the rest is left to `serde_json`.
pub open spec fn written(json: Json) -> Seq<char> {
    match json {
        Json::Null => "null"@,
        Json::Bool(true) => "true"@,
        Json::Bool(false) => "false"@,
        Json::Number(text) => text,
        _ => json_text(json),
    }
}

/// What the values of a list hold.
pub open spec fn list_of(values: Seq<serde_json::Value>) -> Seq<Json> {
    values.map_values(|value: serde_json::Value| json_of(value))
}

/// A JSON value taken apart by one level.
pub enum Shape<'a> {
    Null,
    Bool(bool),
    Number(String),
    Text(&'a String),
    Array(&'a Vec<serde_json::Value>),
    Object(&'a JsonObject),
}

/// Takes a `serde_json::Value` apart: which variant it is, and what the
/// variant holds. A number is given as the text that the `Display` of
/// `serde_json::Number` writes.
#[verifier::external_body]
fn shape(value: &serde_json::Value) -> (shape: Shape<'_>)
    ensures
        json_of(*value) == (match shape {
            Shape::Null => Json::Null,
            Shape::Bool(flag) => Json::Bool(flag),
            Shape::Number(text) => Json::Number(text@),
            Shape::Text(text) => Json::Text(text@),
            Shape::Array(items) => Json::Array(list_of(items@)),
            Shape::Object(object) => Json::Object(entries_of(*object)),
        }),
{
    match value {
        serde_json::Value::Null => Shape::Null,
        serde_json::Value::Bool(flag) => Shape::Bool(*flag),
        serde_json::Value::Number(number) => Shape::Number(number.to_string()),
        serde_json::Value::String(text) => Shape::Text(text),
        serde_json::Value::Array(items) => Shape::Array(items),
        serde_json::Value::Object(object) => Shape::Object(object),
    }
}

/// Writes a value with the `Display` of `serde_json::Value`: compact JSON. A
/// `serde_json::Map` gives its keys in their sorted order, so what the value
/// holds determines the text. Null and the flags are written as these words,
/// and a number as the `Display` of `serde_json::Number` writes it; how a
/// string, an array or an object is written is not claimed.
#[verifier::external_body]
fn write_json(value: &serde_json::Value) -> (text: String)
    ensures
        text@ == json_text(json_of(*value)),
        match json_of(*value) {
            Json::Null => text@ == "null"@,
            Json::Bool(flag) => text@ == if flag {
                "true"@
            } else {
                "false"@
            },
            Json::Number(number) => text@ == number,
            _ => true,
        },
{
    value.to_string()
}

/// Looks a key up with `serde_json::Map::get`: the value under that key, if
/// there is one.
#[verifier::external_body]
fn get<'a>(object: &'a JsonObject, key: &str) -> (value: Option<&'a serde_json::Value>)
    ensures
        match value {
            Some(value) => entries_of(*object).contains_key(key@) && json_of(*value) == entries_of(
                *object,
            )[key@],
            None => !entries_of(*object).contains_key(key@),
        },
{
    object.get(key)
}

/// Makes an object with `serde_json::Map::new`: it holds nothing.
#[verifier::external_body]
pub(crate) fn new_object() -> (object: JsonObject)
    ensures
        entries_of(object) == (Map::<Seq<char>, Json>::empty()),
{
    serde_json::Map::new()
}

/// Puts a value under a key with `serde_json::Map::insert`: it takes the place
/// of a value that was there, and all other keys keep theirs.
#[verifier::external_body]
pub(crate) fn insert(object: &mut JsonObject, key: String, value: serde_json::Value)
    ensures
        entries_of(*final(object)) == entries_of(*old(object)).insert(key@, json_of(value)),
{
    object.insert(key, value);
}

/// Makes a `serde_json::Value::String`.
#[verifier::external_body]
pub(crate) fn json_string(text: String) -> (value: serde_json::Value)
    ensures
        json_of(value) == Json::Text(text@),
{
    serde_json::Value::String(text)
}

/// Makes a `serde_json::Value::Bool`.
#[verifier::external_body]
pub(crate) fn json_bool(flag: bool) -> (value: serde_json::Value)
    ensures
        json_of(value) == Json::Bool(flag),
{
    serde_json::Value::Bool(flag)
}

/// Makes a `serde_json::Value::Array`.
#[verifier::external_body]
pub(crate) fn json_array(items: Vec<serde_json::Value>) -> (value: serde_json::Value)
    ensures
        json_of(value) == Json::Array(list_of(items@)),
{
    serde_json::Value::Array(items)
}

/// Makes a `serde_json::Value::Object`.
#[verifier::external_body]
pub(crate) fn json_object(object: JsonObject) -> (value: serde_json::Value)
    ensures
        json_of(value) == Json::Object(entries_of(object)),
{
    serde_json::Value::Object(object)
}

/// A value as the rules for arguments read it: what it is, and how it is
/// written as JSON when a message quotes it.
pub struct Argument {
    pub kind: Kind,
    pub text: String,
}

/// What a value is.
pub enum Kind {
    Null,
    Bool(bool),
    Number(String),
    Text(String),
    Array(Vec<Argument>),
    Object,
}

/// The contents of an `Argument`.
pub struct Reading {
    pub kind: ReadingKind,
    pub text: Seq<char>,
}

/// The contents of a `Kind`.
pub enum ReadingKind {
    Null,
    Bool(bool),
    Number(Seq<char>),
    Text(Seq<char>),
    Array(Seq<Reading>),
    Object,
}

impl Argument {
    /// What the value holds.
    pub open spec fn view(&self) -> Reading
        decreases self,
    {
        Reading {
            kind: match self.kind {
                Kind::Null => ReadingKind::Null,
                Kind::Bool(flag) => ReadingKind::Bool(flag),
                Kind::Number(text) => ReadingKind::Number(text@),
                Kind::Text(text) => ReadingKind::Text(text@),
                Kind::Array(items) => ReadingKind::Array(
                    Seq::new(
                        items@.len(),
                        |i: int|
                            if 0 <= i < items@.len() {
                                items@[i].view()
                            } else {
                                arbitrary()
                            },
                    ),
                ),
                Kind::Object => ReadingKind::Object,
            },
            text: self.text@,
        }
    }
}

/// What the rules read from a JSON value.
pub open spec fn reading(json: Json) -> Reading
    decreases json,
{
    Reading {
        kind: match json {
            Json::Null => ReadingKind::Null,
            Json::Bool(flag) => ReadingKind::Bool(flag),
            Json::Number(text) => ReadingKind::Number(text),
            Json::Text(text) => ReadingKind::Text(text),
            Json::Array(items) => ReadingKind::Array(
                Seq::new(
                    items.len(),
                    |i: int|
                        if 0 <= i < items.len() {
                            reading(items[i])
                        } else {
                            arbitrary()
                        },
                ),
            ),
            Json::Object(_) => ReadingKind::Object,
        },
        text: written(json),
    }
}

/// Reads a JSON value.
pub fn read_value(value: &serde_json::Value) -> (read: Argument)
    ensures
        read@ == reading(json_of(*value)),
    decreases json_of(*value),
{
    let text = write_json(value);
    let kind = match shape(value) {
        Shape::Null => Kind::Null,
        Shape::Bool(flag) => Kind::Bool(flag),
        Shape::Number(text) => Kind::Number(text),
        Shape::Text(text) => Kind::Text(text.clone()),
        Shape::Object(_) => Kind::Object,
        Shape::Array(items) => {
            let mut list: Vec<Argument> = Vec::new();
            let ghost all = list_of(items@);
            let mut i: usize = 0;
            while i < items.len()
                invariant
                    i <= items@.len(),
                    all == list_of(items@),
                    json_of(*value) == Json::Array(all),
                    list@.len() == i,
                    forall|k: int| 0 <= k < i ==> (#[trigger] list@[k])@ == reading(all[k]),
                decreases items@.len() - i,
            {
                proof {
                    assert(all[i as int] == json_of(items@[i as int]));
                    assert(decreases_to!(json_of(*value) => json_of(*value)->Array_0));
                    assert(decreases_to!(all => all[i as int]));
                }
                list.push(read_value(&items[i]));
                i = i + 1;
            }
            Kind::Array(list)
        },
    };
    let read = Argument { kind, text };
    proof {
        if read.kind is Array {
            assert(read@.kind->Array_0 =~= reading(json_of(*value)).kind->Array_0);
        }
    }
    read
}

/// What a lookup by the rules gives: a missing value and a null are the same.
pub open spec fn present_in(entries: Map<Seq<char>, Json>, name: Seq<char>) -> Option<Reading> {
    if entries.contains_key(name) && entries[name] != Json::Null {
        Some(reading(entries[name]))
    } else {
        None
    }
}

/// What an optional value holds.
pub open spec fn reading_of(value: Option<Argument>) -> Option<Reading> {
    match value {
        Some(value) => Some(value@),
        None => None,
    }
}

/// The argument of that name, unless it is missing or null.
pub fn present(arguments: &JsonObject, name: &str) -> (value: Option<Argument>)
    ensures
        reading_of(value) == present_in(entries_of(*arguments), name@),
{
    match get(arguments, name) {
        Some(value) => match shape(value) {
            Shape::Null => None,
            _ => Some(read_value(value)),
        },
        None => None,
    }
}

/// An argument that is null is as good as none.
pub proof fn null_is_absent(
    entries: Map<Seq<char>, Json>,
    given: Seq<char>,
    name: Seq<char>,
)
    ensures
        present_in(entries.insert(given, Json::Null), name) == present_in(
            entries.remove(given),
            name,
        ),
{
}

/// What is read from a value tells what it is and what it holds: a text or a
/// number its text, a flag whether it is set, and a list what is read from each
/// of its items.
pub proof fn readings_hold_their_values(text: Seq<char>, flag: bool, items: Seq<Json>)
    ensures
        reading(Json::Null).kind is Null,
        reading(Json::Bool(flag)).kind == ReadingKind::Bool(flag),
        reading(Json::Number(text)).kind == ReadingKind::Number(text),
        reading(Json::Text(text)).kind == ReadingKind::Text(text),
        reading(Json::Array(items)).kind is Array,
        reading(Json::Array(items)).kind->Array_0.len() == items.len(),
        forall|i: int|
            0 <= i < items.len() ==> #[trigger] reading(Json::Array(items)).kind->Array_0[i]
                == reading(items[i]),
{
}

/// A message quotes a value as JSON: null, a flag and a number in plain words,
/// and all else as `serde_json` writes it.
pub proof fn values_are_quoted_as_json(json: Json)
    ensures
        json is Null ==> reading(json).text == "null"@,
        json == Json::Bool(true) ==> reading(json).text == "true"@,
        json == Json::Bool(false) ==> reading(json).text == "false"@,
        json matches Json::Number(number) ==> reading(json).text == number,
        json is Text || json is Array || json is Object ==> reading(json).text == json_text(json),
        json is Object ==> reading(json).kind is Object,
{
}

/// An argument is present if and only if it is there and not null, and then it
/// is what is read from it.
pub proof fn arguments_are_looked_up(entries: Map<Seq<char>, Json>, name: Seq<char>)
    ensures
        present_in(entries, name) is Some <==> entries.contains_key(name) && !(
        entries[name] is Null),
        present_in(entries, name) matches Some(value) ==> value == reading(entries[name]),
{
}

/// The contents of a value are those of its fields, and of a list those of
/// each item.
pub proof fn arguments_are_their_fields(argument: Argument)
    ensures
        reading_of(Some(argument)) == Some(argument@),
        reading_of(None) is None,
        argument@.text == argument.text@,
        argument.kind is Null <==> argument@.kind is Null,
        argument.kind is Object <==> argument@.kind is Object,
        argument.kind matches Kind::Bool(flag) ==> argument@.kind == ReadingKind::Bool(flag),
        argument.kind matches Kind::Number(text) ==> argument@.kind == ReadingKind::Number(text@),
        argument.kind matches Kind::Text(text) ==> argument@.kind == ReadingKind::Text(text@),
        argument.kind matches Kind::Array(items) ==> argument@.kind is Array
            && argument@.kind->Array_0.len() == items@.len() && forall|i: int|
            0 <= i < items@.len() ==> #[trigger] argument@.kind->Array_0[i] == items@[i]@,
{
}

/// What a list of values holds is what each of them holds.
pub proof fn lists_hold_their_values(values: Seq<serde_json::Value>)
    ensures
        list_of(values).len() == values.len(),
        forall|i: int| 0 <= i < values.len() ==> #[trigger] list_of(values)[i] == json_of(values[i]),
{
}

} // verus!
