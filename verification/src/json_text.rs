//! JSON text, parsed and printed by `serde_json`.

use vstd::prelude::*;
use vstd::seq_lib::seq_to_set_is_finite;
use vstd::set_lib::lemma_set_subset_finite;
use crate::json::{is_last_under, item_views, lemma_array_view, lemma_member_counts};
use crate::json::{JsonModel, JsonValue};

verus! {

/// `serde_json::Value`: a JSON value, opaque here.
#[verifier::external_type_specification]
#[verifier::external_body]
pub struct ExValue(serde_json::Value);

/// `serde_json::Error`: why a text could not be parsed or a value not printed.
#[verifier::external_type_specification]
#[verifier::external_body]
pub struct ExJsonError(serde_json::Error);

/// What a `serde_json::Value` holds.
pub uninterp spec fn json_model(value: serde_json::Value) -> JsonModel;

/// What `serde_json::from_str` makes of a text: the value it parses to, or `None`
/// where it reports an error.
pub uninterp spec fn json_parsed(text: Seq<char>) -> Option<JsonModel>;

/// The text that `serde_json::to_string_pretty` prints for a value: indented,
/// the members of an object in the order of their keys.
pub uninterp spec fn json_pretty(value: JsonModel) -> Seq<char>;

/// One level of a JSON value, its parts still unopened.
pub(crate) enum JsonShape {
    Null,
    Bool(bool),
    Number(String),
    Text(String),
    Array(Vec<serde_json::Value>),
    Object(Vec<(String, serde_json::Value)>),
}

/// The models of a sequence of values.
pub open spec fn models(items: Seq<serde_json::Value>) -> Seq<JsonModel> {
    items.map_values(|item: serde_json::Value| json_model(item))
}

/// Whether no two of `members` have the same key.
pub open spec fn distinct_keys(members: Seq<(String, serde_json::Value)>) -> bool {
    forall|i: int, j: int|
        0 <= i < j < members.len() ==> (#[trigger] members[i]).0@ != (#[trigger] members[j]).0@
}

/// Whether `members` lists each member of the object `fields` once.
pub open spec fn lists_members(
    members: Seq<(String, serde_json::Value)>,
    fields: Map<Seq<char>, JsonModel>,
) -> bool {
    &&& distinct_keys(members)
    &&& forall|i: int|
        0 <= i < members.len() ==> fields.contains_key((#[trigger] members[i]).0@)
            && fields[members[i].0@] == json_model(members[i].1)
    &&& forall|key: Seq<char>| #[trigger]
        fields.contains_key(key) ==> exists|i: int|
            0 <= i < members.len() && (#[trigger] members[i]).0@ == key
}

/// Whether `model` is an object of which `members` lists each member once.
pub open spec fn is_object_of(
    members: Seq<(String, serde_json::Value)>,
    model: JsonModel,
) -> bool {
    model matches JsonModel::Object(fields) && lists_members(members, fields)
}

/// Calls `serde_json::from_str` for a `serde_json::Value`. The parser reads the
/// text alone, so the same text gives the same outcome, which `json_parsed`
/// names; nothing is claimed of which texts parse.
#[verifier::external_body]
pub(crate) fn parse_value(text: &str) -> (r: Result<serde_json::Value, serde_json::Error>)
    ensures
        match r {
            Ok(value) => json_parsed(text@) == Some(json_model(value)),
            Err(_) => json_parsed(text@) is None,
        },
{
    serde_json::from_str::<serde_json::Value>(text)
}

/// Tells the variants of `serde_json::Value` apart and hands out what the variant
/// holds: a number as `serde_json::Number` displays it, the members of an object
/// in the order in which `serde_json::Map` yields them, each key once.
#[verifier::external_body]
pub(crate) fn open_value(value: serde_json::Value) -> (shape: JsonShape)
    ensures
        match shape {
            JsonShape::Null => json_model(value) is Null,
            JsonShape::Bool(b) => json_model(value) == JsonModel::Bool(b),
            JsonShape::Number(digits) => json_model(value) == JsonModel::Number(digits@),
            JsonShape::Text(text) => json_model(value) == JsonModel::Text(text@),
            JsonShape::Array(items) => json_model(value) == JsonModel::Array(models(items@)),
            JsonShape::Object(members) => is_object_of(members@, json_model(value)),
        },
{
    match value {
        serde_json::Value::Null => JsonShape::Null,
        serde_json::Value::Bool(b) => JsonShape::Bool(b),
        serde_json::Value::Number(n) => JsonShape::Number(n.to_string()),
        serde_json::Value::String(s) => JsonShape::Text(s),
        serde_json::Value::Array(items) => JsonShape::Array(items),
        serde_json::Value::Object(map) => JsonShape::Object(map.into_iter().collect()),
    }
}

/// Builds `serde_json::Value::String`, which holds the text.
#[verifier::external_body]
pub(crate) fn text_value(text: String) -> (value: serde_json::Value)
    ensures
        json_model(value) == JsonModel::Text(text@),
{
    serde_json::Value::String(text)
}

/// Builds `serde_json::Value::Array`, which holds the items in their order.
#[verifier::external_body]
pub(crate) fn array_value(items: Vec<serde_json::Value>) -> (value: serde_json::Value)
    ensures
        json_model(value) == JsonModel::Array(models(items@)),
{
    serde_json::Value::Array(items)
}

/// Builds `serde_json::Value::Object` by collecting the members, no two of
/// which have the same key, into a `serde_json::Map`, which then holds each
/// member under its key and nothing else.
#[verifier::external_body]
pub(crate) fn object_value(members: Vec<(String, serde_json::Value)>) -> (value:
    serde_json::Value)
    requires
        distinct_keys(members@),
    ensures
        is_object_of(members@, json_model(value)),
{
    serde_json::Value::Object(members.into_iter().collect())
}

/// Calls `serde_json::to_string_pretty` on a `serde_json::Value`. The printer
/// writes what the value holds and nothing else, so values that hold the same
/// give the same text, which `json_pretty` names. It always succeeds on a
/// `serde_json::Value`: the printer fails only where its writer fails or a map
/// has a key that is no string, and here the writer is a byte vector in memory
/// and every key is a `String`.
#[verifier::external_body]
pub(crate) fn print_value(value: &serde_json::Value) -> (r: Result<String, serde_json::Error>)
    ensures
        r is Ok,
        r matches Ok(text) ==> text@ == json_pretty(json_model(*value)),
{
    serde_json::to_string_pretty(value)
}

/// The items of `items` in the opposite order.
fn reversed<T>(items: Vec<T>) -> (r: Vec<T>)
    ensures
        r@.len() == items@.len(),
        forall|i: int| 0 <= i < r@.len() ==> #[trigger] r@[i] == items@[items@.len() - 1 - i],
{
    let ghost all = items@;
    let mut rest = items;
    let mut r: Vec<T> = Vec::new();
    while rest.len() > 0
        invariant
            rest@.len() + r@.len() == all.len(),
            rest@ == all.take(rest@.len() as int),
            forall|i: int| 0 <= i < r@.len() ==> #[trigger] r@[i] == all[all.len() - 1 - i],
        decreases rest@.len(),
    {
        let ghost at = rest@.len() - 1;
        let item = rest.pop().unwrap();
        assert(rest@ =~= all.take(at));
        r.push(item);
    }
    r
}

/// An object that a list lists has finitely many members.
proof fn lemma_listed_is_finite(
    members: Seq<(String, serde_json::Value)>,
    fields: Map<Seq<char>, JsonModel>,
)
    requires
        lists_members(members, fields),
    ensures
        fields.dom().finite(),
{
    let keys = members.map_values(|m: (String, serde_json::Value)| m.0@);
    seq_to_set_is_finite(keys);
    assert forall|key: Seq<char>| fields.dom().contains(key) implies keys.to_set().contains(
        key,
    ) by {
        assert(fields.contains_key(key));
        let i = choose|i: int| 0 <= i < members.len() && (#[trigger] members[i]).0@ == key;
        assert(keys[i] == key);
    }
    lemma_set_subset_finite(keys.to_set(), fields.dom());
}

/// The value of the library's own that holds what `value` holds.
fn from_outside(value: serde_json::Value) -> (json: JsonValue)
    ensures
        json@ == json_model(value),
    decreases json_model(value),
{
    match open_value(value) {
        JsonShape::Null => JsonValue::Null,
        JsonShape::Bool(b) => JsonValue::Bool(b),
        JsonShape::Number(digits) => JsonValue::Number(digits),
        JsonShape::Text(text) => JsonValue::Text(text),
        JsonShape::Array(items) => {
            let ghost all = items@;
            let mut rest = reversed(items);
            let mut out: Vec<JsonValue> = Vec::new();
            while rest.len() > 0
                invariant
                    json_model(value) == JsonModel::Array(models(all)),
                    rest@.len() + out@.len() == all.len(),
                    forall|i: int|
                        0 <= i < rest@.len() ==> #[trigger] rest@[i] == all[all.len() - 1 - i],
                    forall|i: int|
                        0 <= i < out@.len() ==> (#[trigger] out@[i])@ == json_model(all[i]),
                decreases rest@.len(),
            {
                let ghost at = out@.len() as int;
                let item = rest.pop().unwrap();
                assert(item == all[at]);
                assert(models(all)[at] == json_model(item));
                assert(decreases_to!(json_model(value) => json_model(value)->Array_0));
                assert(decreases_to!(
                    json_model(value)->Array_0 => json_model(value)->Array_0[at]
                ));
                out.push(from_outside(item));
            }
            proof {
                lemma_array_view(out);
                assert(item_views(out@) =~= models(all));
            }
            JsonValue::Array(out)
        },
        JsonShape::Object(members) => {
            let ghost all = members@;
            let ghost fields = match json_model(value) {
                JsonModel::Object(fields) => fields,
                _ => Map::empty(),
            };
            proof {
                lemma_listed_is_finite(all, fields);
            }
            let mut rest = reversed(members);
            let mut out: Vec<(String, JsonValue)> = Vec::new();
            while rest.len() > 0
                invariant
                    json_model(value) == JsonModel::Object(fields),
                    lists_members(all, fields),
                    fields.dom().finite(),
                    rest@.len() + out@.len() == all.len(),
                    forall|i: int|
                        0 <= i < rest@.len() ==> #[trigger] rest@[i] == all[all.len() - 1 - i],
                    forall|i: int|
                        0 <= i < out@.len() ==> (#[trigger] out@[i]).0@ == all[i].0@ && out@[i].1@
                            == json_model(all[i].1),
                decreases rest@.len(),
            {
                let ghost at = out@.len() as int;
                let (key, item) = rest.pop().unwrap();
                assert((key, item) == all[at]);
                assert(fields.contains_key(all[at].0@) && fields[all[at].0@] == json_model(item));
                assert(decreases_to!(json_model(value) => json_model(value)->Object_0));
                assert(decreases_to!(
                    json_model(value)->Object_0 => json_model(value)->Object_0[all[at].0@]
                ));
                out.push((key, from_outside(item)));
            }
            proof {
                let built = match JsonValue::Object(out)@ {
                    JsonModel::Object(built) => built,
                    _ => Map::empty(),
                };
                assert forall|key: Seq<char>| built.contains_key(key) <==> fields.contains_key(
                    key,
                ) by {
                    if built.contains_key(key) {
                        let i = choose|i: int|
                            0 <= i < out@.len() && (#[trigger] out@[i]).0@ == key;
                        assert(fields.contains_key(all[i].0@));
                    }
                    if fields.contains_key(key) {
                        let i = choose|i: int| 0 <= i < all.len() && (#[trigger] all[i]).0@ == key;
                        assert(out@[i].0@ == key);
                    }
                }
                assert forall|key: Seq<char>| built.contains_key(key) implies built[key]
                    == fields[key] by {
                    let i = choose|i: int| 0 <= i < out@.len() && (#[trigger] out@[i]).0@ == key;
                    assert forall|j: int| i < j < out@.len() implies (#[trigger] out@[j]).0@
                        != key by {
                        assert(all[i].0@ != all[j].0@);
                    }
                    assert(is_last_under(out@, key, i));
                    lemma_member_counts(out, i);
                    assert(fields[all[i].0@] == json_model(all[i].1));
                }
                assert(built =~= fields);
            }
            JsonValue::Object(out)
        },
    }
}

/// Parses a JSON text. `None` where the text is no JSON.
pub fn parse_json(text: &str) -> (r: Option<JsonValue>)
    ensures
        match r {
            Some(json) => json_parsed(text@) == Some(json@),
            None => json_parsed(text@) is None,
        },
{
    match parse_value(text) {
        Ok(value) => Some(from_outside(value)),
        Err(_) => None,
    }
}

} // verus!
