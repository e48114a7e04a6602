//! JSON values.

use vstd::prelude::*;

verus! {

/// A JSON value as mathematics. A number stands as its JSON text.
pub enum JsonModel {
    Null,
    Bool(bool),
    Number(Seq<char>),
    Text(Seq<char>),
    Array(Seq<JsonModel>),
    Object(Map<Seq<char>, JsonModel>),
}

/// A JSON value. A number is held as its JSON text, an object as the list of its
/// members; where a key comes twice, the later member counts.
#[derive(Debug, PartialEq, Eq)]
pub enum JsonValue {
    Null,
    Bool(bool),
    Number(String),
    Text(String),
    Array(Vec<JsonValue>),
    Object(Vec<(String, JsonValue)>),
}

/// Whether a member of `members` has the key `key`.
pub open spec fn has_key(members: Seq<(String, JsonValue)>, key: Seq<char>) -> bool {
    exists|i: int| 0 <= i < members.len() && (#[trigger] members[i]).0@ == key
}

/// Whether member `i` is the last of `members` that has the key `key`.
pub open spec fn is_last_under(members: Seq<(String, JsonValue)>, key: Seq<char>, i: int) -> bool {
    &&& 0 <= i < members.len()
    &&& members[i].0@ == key
    &&& forall|j: int| i < j < members.len() ==> (#[trigger] members[j]).0@ != key
}

/// The position of the last member that has the key `key`.
pub open spec fn last_under(members: Seq<(String, JsonValue)>, key: Seq<char>) -> int {
    choose|i: int| is_last_under(members, key, i)
}

/// The member of an object under `key`; null where there is none.
pub open spec fn member(fields: Map<Seq<char>, JsonModel>, key: Seq<char>) -> JsonModel {
    if fields.contains_key(key) {
        fields[key]
    } else {
        JsonModel::Null
    }
}

impl View for JsonValue {
    type V = JsonModel;

    open spec fn view(&self) -> JsonModel
        decreases self,
    {
        match self {
            JsonValue::Null => JsonModel::Null,
            JsonValue::Bool(b) => JsonModel::Bool(*b),
            JsonValue::Number(digits) => JsonModel::Number(digits@),
            JsonValue::Text(text) => JsonModel::Text(text@),
            JsonValue::Array(items) => JsonModel::Array(
                Seq::new(
                    items@.len(),
                    |i: int|
                        if 0 <= i < items@.len() {
                            items@[i].view()
                        } else {
                            JsonModel::Null
                        },
                ),
            ),
            JsonValue::Object(members) => JsonModel::Object(
                Map::new(
                    |key: Seq<char>| has_key(members@, key),
                    |key: Seq<char>|
                        {
                            let i = last_under(members@, key);
                            if 0 <= i < members@.len() {
                                members@[i].1.view()
                            } else {
                                JsonModel::Null
                            }
                        },
                ),
            ),
        }
    }
}

/// The views of a sequence of values.
pub open spec fn item_views(items: Seq<JsonValue>) -> Seq<JsonModel> {
    items.map_values(|item: JsonValue| item@)
}

/// The view of an array is the array of its items' views.
pub proof fn lemma_array_view(items: Vec<JsonValue>)
    ensures
        JsonValue::Array(items)@ == JsonModel::Array(item_views(items@)),
{
    assert(JsonValue::Array(items)@->Array_0 =~= item_views(items@));
}

/// The view of an object holds, under the key of a member after which no
/// member has the same key, the view of that member's value.
pub proof fn lemma_member_counts(members: Vec<(String, JsonValue)>, i: int)
    requires
        is_last_under(members@, members@[i].0@, i),
    ensures
        JsonValue::Object(members)@ matches JsonModel::Object(fields) && fields.contains_key(
            members@[i].0@,
        ) && fields[members@[i].0@] == members@[i].1@,
{
    let key = members@[i].0@;
    let k = last_under(members@, key);
    assert(is_last_under(members@, key, k));
    if k < i {
        assert(members@[i].0@ != key);
    }
    if i < k {
        assert(members@[k].0@ != key);
    }
}

/// The view of an object holds a key exactly when a member has it.
pub proof fn lemma_member_keys(members: Vec<(String, JsonValue)>, key: Seq<char>)
    ensures
        JsonValue::Object(members)@ matches JsonModel::Object(fields) && (fields.contains_key(key)
            <==> has_key(members@, key)),
{
}

/// Whether `key` is the text `name`.
fn key_is(key: &String, name: &str) -> (same: bool)
    ensures
        same == (key@ == name@),
{
    let owned = name.to_owned();
    *key == owned
}

impl JsonValue {
    /// The member under `key`, if the value is an object that has one.
    pub fn get(&self, key: &str) -> (found: Option<&JsonValue>)
        ensures
            match found {
                Some(value) => self@ matches JsonModel::Object(fields) && fields.contains_key(key@)
                    && fields[key@] == value@,
                None => self@ matches JsonModel::Object(fields) ==> !fields.contains_key(key@),
            },
    {
        match self {
            JsonValue::Object(members) => {
                let mut i: usize = members.len();
                while i > 0
                    invariant
                        *self == JsonValue::Object(*members),
                        i <= members@.len(),
                        forall|j: int|
                            i <= j < members@.len() ==> (#[trigger] members@[j]).0@ != key@,
                    decreases i,
                {
                    i = i - 1;
                    if key_is(&members[i].0, key) {
                        proof {
                            lemma_member_counts(*members, i as int);
                        }
                        return Some(&members[i].1);
                    }
                }
                proof {
                    lemma_member_keys(*members, key@);
                }
                None
            },
            _ => None,
        }
    }
}

} // verus!
