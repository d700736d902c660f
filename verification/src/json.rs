//! JSON documents as a tree of plain values.

use vstd::prelude::*;

verus! {

/// A JSON number as `serde_json` holds it. The library never looks inside
/// one: it only carries numbers from parsed text to the serialized document.
#[verifier::external_type_specification]
#[verifier::external_body]
pub struct ExNumber(serde_json::Number);

/// A JSON document as `serde_json` holds it: what its parser gives and its
/// serializer takes. The library converts it to and from [`JsonValue`] and
/// does not look inside otherwise.
#[verifier::external_type_specification]
#[verifier::external_body]
pub struct ExValue(serde_json::Value);

/// Why `serde_json` refused a text.
#[verifier::external_type_specification]
#[verifier::external_body]
pub struct ExError(serde_json::Error);

/// The mathematical model of a JSON document.
///
/// An object is a sequence of members in the order in which they were
/// created; a member is found by the first entry that carries its key.
pub ghost enum Json {
    Null,
    Bool(bool),
    Number(serde_json::Number),
    String(Seq<char>),
    Array(Seq<Json>),
    Object(Seq<(Seq<char>, Json)>),
}

/// Whether no two members have the same key.
pub open spec fn distinct_keys(members: Seq<(Seq<char>, Json)>) -> bool {
    forall|i: int, j: int|
        0 <= i < j < members.len() ==> (#[trigger] members[i]).0 != (#[trigger] members[j]).0
}

impl Json {
    /// Whether no object of the document, at any depth, has two members with
    /// the same key.
    pub open spec fn wf(self) -> bool
        decreases self,
    {
        match self {
            Json::Array(items) => forall|i: int|
                0 <= i < items.len() ==> (#[trigger] items[i]).wf(),
            Json::Object(members) => distinct_keys(members) && forall|i: int|
                0 <= i < members.len() ==> (#[trigger] members[i]).1.wf(),
            _ => true,
        }
    }
}

/// The document that a text denotes as JSON, as `serde_json::from_str`
/// reads it; nothing where the text is no JSON.
pub uninterp spec fn raw_json(text: Seq<char>) -> Option<Json>;

/// The compact JSON text of a document, as `serde_json` writes it.
pub uninterp spec fn json_text(tree: Json) -> Seq<char>;

/// A JSON document.
#[derive(Debug, PartialEq)]
pub enum JsonValue {
    Null,
    Bool(bool),
    Number(serde_json::Number),
    String(String),
    Array(Vec<JsonValue>),
    Object(Vec<(String, JsonValue)>),
}

impl View for JsonValue {
    type V = Json;

    open spec fn view(&self) -> Json
        decreases self,
    {
        match self {
            JsonValue::Null => Json::Null,
            JsonValue::Bool(b) => Json::Bool(*b),
            JsonValue::Number(n) => Json::Number(*n),
            JsonValue::String(s) => Json::String(s@),
            JsonValue::Array(items) => Json::Array(items_view(items@)),
            JsonValue::Object(members) => Json::Object(members_view(members@)),
        }
    }
}

/// Converts a document of `serde_json` into one of the library, variant by
/// variant; the members of an object come in the order in which
/// `serde_json`'s map hands them out.
#[verifier::external_body]
fn from_value(value: serde_json::Value) -> JsonValue {
    match value {
        serde_json::Value::Null => JsonValue::Null,
        serde_json::Value::Bool(b) => JsonValue::Bool(b),
        serde_json::Value::Number(n) => JsonValue::Number(n),
        serde_json::Value::String(s) => JsonValue::String(s),
        serde_json::Value::Array(items) => JsonValue::Array(
            items.into_iter().map(from_value).collect(),
        ),
        serde_json::Value::Object(members) => JsonValue::Object(
            members.into_iter().map(|(key, value)| (key, from_value(value))).collect(),
        ),
    }
}

/// Converts a document of the library into one of `serde_json`, variant by
/// variant; the members of an object are inserted into `serde_json`'s map in
/// their order.
#[verifier::external_body]
fn to_value(tree: &JsonValue) -> serde_json::Value {
    match tree {
        JsonValue::Null => serde_json::Value::Null,
        JsonValue::Bool(b) => serde_json::Value::Bool(*b),
        JsonValue::Number(n) => serde_json::Value::Number(n.clone()),
        JsonValue::String(s) => serde_json::Value::String(s.clone()),
        JsonValue::Array(items) => serde_json::Value::Array(items.iter().map(to_value).collect()),
        JsonValue::Object(members) => serde_json::Value::Object(
            members.iter().map(|member| (member.0.clone(), to_value(&member.1))).collect(),
        ),
    }
}

/// Reads a text as JSON with `serde_json::from_str`.
///
/// Trusted: the outcome depends on the text alone, so it is `raw_json` of
/// the text; and a document that `serde_json` has read holds no key twice in
/// one object, because its objects are maps.
#[verifier::external_body]
pub(crate) fn parse_raw(text: &str) -> (read: Result<JsonValue, serde_json::Error>)
    ensures
        match read {
            Ok(tree) => raw_json(text@) == Some(tree@) && tree@.wf(),
            Err(_) => raw_json(text@) is None,
        },
{
    match serde_json::from_str::<serde_json::Value>(text) {
        Ok(value) => Ok(from_value(value)),
        Err(error) => Err(error),
    }
}

/// Writes a document as compact JSON text with `serde_json`'s `Display` for
/// its `Value`.
///
/// Trusted: the text depends on the document alone, so it is `json_text` of
/// the document's model.
#[verifier::external_body]
pub(crate) fn to_text(tree: &JsonValue) -> (text: String)
    ensures
        text@ == json_text(tree@),
{
    to_value(tree).to_string()
}

/// The message of an error of `serde_json`, by its `Display`.
#[verifier::external_body]
pub(crate) fn error_text(error: &serde_json::Error) -> String {
    error.to_string()
}

impl JsonValue {
    /// Whether this is the null document.
    pub fn is_null(&self) -> (null: bool)
        ensures
            null == (self@ == Json::Null),
    {
        match self {
            JsonValue::Null => true,
            _ => false,
        }
    }
}

/// The models of the items of an array, one for one.
pub open spec fn items_view(items: Seq<JsonValue>) -> Seq<Json>
    decreases items,
{
    if items.len() == 0 {
        Seq::empty()
    } else {
        items_view(items.drop_last()).push(items.last().view())
    }
}

/// The models of the members of an object, one for one.
pub open spec fn members_view(members: Seq<(String, JsonValue)>) -> Seq<(Seq<char>, Json)>
    decreases members,
{
    if members.len() == 0 {
        Seq::empty()
    } else {
        members_view(members.drop_last()).push((members.last().0@, members.last().1.view()))
    }
}

/// `items_view` keeps the length and maps each item to its model.
pub proof fn lemma_items_view(items: Seq<JsonValue>)
    ensures
        items_view(items).len() == items.len(),
        forall|i: int| 0 <= i < items.len() ==> #[trigger] items_view(items)[i] == items[i]@,
    decreases items.len(),
{
    reveal_with_fuel(items_view, 2);
    if items.len() > 0 {
        lemma_items_view(items.drop_last());
    }
}

/// `members_view` keeps the length and maps each member to its key's text
/// and its value's model.
pub proof fn lemma_members_view(members: Seq<(String, JsonValue)>)
    ensures
        members_view(members).len() == members.len(),
        forall|i: int|
            0 <= i < members.len() ==> #[trigger] members_view(members)[i] == (
                members[i].0@,
                members[i].1@,
            ),
    decreases members.len(),
{
    reveal_with_fuel(members_view, 2);
    if members.len() > 0 {
        lemma_members_view(members.drop_last());
    }
}

/// Two sequences of items with the same models, one for one, have the same
/// model.
pub proof fn lemma_items_view_pointwise(items: Seq<JsonValue>, model: Seq<Json>)
    requires
        model.len() == items.len(),
        forall|i: int| 0 <= i < items.len() ==> #[trigger] model[i] == items[i]@,
    ensures
        items_view(items) == model,
{
    lemma_items_view(items);
    assert(items_view(items) =~= model);
}

/// Two sequences of members with the same keys and models, one for one, have
/// the same model.
pub proof fn lemma_members_view_pointwise(
    members: Seq<(String, JsonValue)>,
    model: Seq<(Seq<char>, Json)>,
)
    requires
        model.len() == members.len(),
        forall|i: int|
            0 <= i < members.len() ==> #[trigger] model[i] == (members[i].0@, members[i].1@),
    ensures
        members_view(members) == model,
{
    lemma_members_view(members);
    assert(members_view(members) =~= model);
}

} // verus!
