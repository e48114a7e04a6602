//! The registry as a JSON document: an object with the master password under
//! `password` and, under `pictures_paths`, an array of objects that each hold a
//! `name` and a `path`.

use vstd::prelude::*;
use crate::error::VaultError;
use crate::json::{item_views, lemma_array_view, member, JsonModel, JsonValue};
use crate::json_text::{array_value, object_value, print_value, text_value};
use crate::json_text::{json_model, json_parsed, json_pretty, models, parse_json};
use crate::registry::{entry_views, unique_names};
use crate::registry::{EntryView, PlatformEntry, RegistryView, VaultRegistry};

verus! {

/// The key of the master password.
pub open spec fn password_key() -> Seq<char> {
    "password"@
}

/// The key of the array of entries.
pub open spec fn entries_key() -> Seq<char> {
    "pictures_paths"@
}

/// The key of an entry's platform name.
pub open spec fn name_key() -> Seq<char> {
    "name"@
}

/// The key of an entry's picture path.
pub open spec fn path_key() -> Seq<char> {
    "path"@
}

/// The entry that a JSON value describes: an object whose `name` and `path` are
/// both strings. Any other value describes none.
pub open spec fn entry_of(item: JsonModel) -> Option<EntryView> {
    match item {
        JsonModel::Object(fields) => match (
            member(fields, name_key()),
            member(fields, path_key()),
        ) {
            (JsonModel::Text(name), JsonModel::Text(path)) => Some(EntryView { name, path }),
            _ => None,
        },
        _ => None,
    }
}

/// Whether every value of `items` describes an entry.
pub open spec fn all_entries(items: Seq<JsonModel>) -> bool {
    forall|i: int| 0 <= i < items.len() ==> (#[trigger] entry_of(items[i])) is Some
}

/// The entries that `items` describe, in their order.
pub open spec fn entries_of(items: Seq<JsonModel>) -> Seq<EntryView> {
    Seq::new(items.len(), |i: int| entry_of(items[i])->0)
}

/// The registry that a JSON document describes, or why it describes none.
///
/// Anything but an object is malformed. An object without a `password`, or with
/// a null one, has no master password, whatever else it holds. Otherwise the
/// password must be a string and `pictures_paths` an array of entries, no two
/// of which go by names that differ in letter case at most; else the document
/// is malformed.
pub open spec fn registry_of(document: JsonModel) -> Result<RegistryView, VaultError> {
    match document {
        JsonModel::Object(fields) => match member(fields, password_key()) {
            JsonModel::Null => Err(VaultError::NoMasterPassword),
            JsonModel::Text(password) => match member(fields, entries_key()) {
                JsonModel::Array(items) => if all_entries(items) && unique_names(
                    entries_of(items),
                ) {
                    Ok(RegistryView { password, entries: entries_of(items) })
                } else {
                    Err(VaultError::MalformedRegistry)
                },
                _ => Err(VaultError::MalformedRegistry),
            },
            _ => Err(VaultError::MalformedRegistry),
        },
        _ => Err(VaultError::MalformedRegistry),
    }
}

/// The registry that a text describes: that of the JSON document it parses to.
/// A text that is no JSON is malformed.
pub open spec fn registry_of_text(parsed: Option<JsonModel>) -> Result<RegistryView, VaultError> {
    match parsed {
        Some(document) => registry_of(document),
        None => Err(VaultError::MalformedRegistry),
    }
}

/// The JSON object that stands for an entry.
pub open spec fn entry_document(entry: EntryView) -> JsonModel {
    JsonModel::Object(
        map![name_key() => JsonModel::Text(entry.name), path_key() => JsonModel::Text(entry.path)],
    )
}

/// The JSON document that stands for a registry.
pub open spec fn document_of(registry: RegistryView) -> JsonModel {
    JsonModel::Object(
        map![
            password_key() => JsonModel::Text(registry.password),
            entries_key() => JsonModel::Array(
                Seq::new(registry.entries.len(), |i: int| entry_document(registry.entries[i])),
            ),
        ],
    )
}

/// Whether `r` is the registry or the error that `expected` says.
pub open spec fn agrees(r: Result<VaultRegistry, VaultError>, expected: Result<
    RegistryView,
    VaultError,
>) -> bool {
    match expected {
        Ok(view) => r matches Ok(registry) && registry@ == view,
        Err(e) => r matches Err(got) && got == e,
    }
}

/// The four keys of the document are four texts, and the two of each object differ.
proof fn lemma_keys_differ()
    ensures
        name_key() != path_key(),
        password_key() != entries_key(),
{
    reveal_strlit("name");
    reveal_strlit("path");
    reveal_strlit("password");
    reveal_strlit("pictures_paths");
    assert(name_key()[0] != path_key()[0]);
    assert(password_key().len() != entries_key().len());
}

/// The entry that a JSON value describes, if it describes one.
pub fn entry_from_json(item: &JsonValue) -> (r: Option<PlatformEntry>)
    ensures
        match r {
            Some(entry) => entry_of(item@) == Some(entry@),
            None => entry_of(item@) is None,
        },
{
    let name = match item.get("name") {
        Some(JsonValue::Text(name)) => name,
        _ => { return None; },
    };
    let path = match item.get("path") {
        Some(JsonValue::Text(path)) => path,
        _ => { return None; },
    };
    Some(PlatformEntry { name: name.clone(), path: path.clone() })
}

/// The registry that the JSON document `document` describes. Fails with
/// `MalformedRegistry` or `NoMasterPassword` as `registry_of` says.
pub fn registry_from_json(document: &JsonValue) -> (r: Result<VaultRegistry, VaultError>)
    ensures
        agrees(r, registry_of(document@)),
{
    match document {
        JsonValue::Object(_) => {},
        _ => { return Err(VaultError::MalformedRegistry); },
    }
    let password = match document.get("password") {
        None => { return Err(VaultError::NoMasterPassword); },
        Some(JsonValue::Null) => { return Err(VaultError::NoMasterPassword); },
        Some(JsonValue::Text(password)) => password.clone(),
        Some(_) => { return Err(VaultError::MalformedRegistry); },
    };
    let items = match document.get("pictures_paths") {
        Some(JsonValue::Array(items)) => items,
        _ => { return Err(VaultError::MalformedRegistry); },
    };
    proof {
        lemma_array_view(*items);
    }
    let ghost all = item_views(items@);
    let mut entries: Vec<PlatformEntry> = Vec::new();
    let mut i: usize = 0;
    while i < items.len()
        invariant
            i <= items@.len(),
            all == item_views(items@),
            !all_entries(all) ==> registry_of(document@) == Err::<RegistryView, VaultError>(
                VaultError::MalformedRegistry,
            ),
            entries@.len() == i,
            forall|k: int| 0 <= k < i ==> entry_of(all[k]) == Some(#[trigger] entries@[k]@),
        decreases items@.len() - i,
    {
        match entry_from_json(&items[i]) {
            Some(entry) => {
                entries.push(entry);
            },
            None => {
                assert(entry_of(all[i as int]) is None);
                return Err(VaultError::MalformedRegistry);
            },
        }
        i = i + 1;
    }
    assert forall|k: int| 0 <= k < all.len() implies (#[trigger] entry_of(all[k])) is Some by {
        assert(entry_of(all[k]) == Some(entries@[k]@));
    }
    assert(entry_views(entries@) =~= entries_of(all));
    VaultRegistry::from_parts(Some(password), entries)
}

/// Reads a registry from the text of its JSON document. Fails with
/// `MalformedRegistry` or `NoMasterPassword` as `registry_of_text` says of what
/// the text parses to.
pub fn from_document(text: &str) -> (r: Result<VaultRegistry, VaultError>)
    ensures
        agrees(r, registry_of_text(json_parsed(text@))),
{
    match parse_json(text) {
        Some(document) => registry_from_json(&document),
        None => Err(VaultError::MalformedRegistry),
    }
}

/// The JSON object that stands for `entry`.
fn entry_value(entry: &PlatformEntry) -> (value: serde_json::Value)
    ensures
        json_model(value) == entry_document(entry@),
{
    let mut members: Vec<(String, serde_json::Value)> = Vec::new();
    members.push(("name".to_owned(), text_value(entry.name.clone())));
    members.push(("path".to_owned(), text_value(entry.path.clone())));
    proof {
        lemma_keys_differ();
    }
    let ghost listed = members@;
    let value = object_value(members);
    proof {
        let fields = match json_model(value) {
            JsonModel::Object(fields) => fields,
            _ => Map::empty(),
        };
        assert(fields.contains_key(listed[0].0@) && fields.contains_key(listed[1].0@));
        assert(fields =~= map![
            name_key() => JsonModel::Text(entry@.name),
            path_key() => JsonModel::Text(entry@.path),
        ]);
    }
    value
}

/// The JSON document that stands for `registry`.
fn to_value(registry: &VaultRegistry) -> (value: serde_json::Value)
    ensures
        json_model(value) == document_of(registry@),
{
    let count = registry.len();
    let mut items: Vec<serde_json::Value> = Vec::new();
    let mut i: usize = 0;
    while i < count
        invariant
            i <= count,
            count == registry@.entries.len(),
            items@.len() == i,
            forall|k: int|
                0 <= k < i ==> json_model(#[trigger] items@[k]) == entry_document(
                    registry@.entries[k],
                ),
        decreases count - i,
    {
        match registry.entry(i) {
            Some(entry) => {
                items.push(entry_value(entry));
            },
            None => {},
        }
        i = i + 1;
    }
    assert(models(items@) =~= Seq::new(
        registry@.entries.len(),
        |k: int| entry_document(registry@.entries[k]),
    ));
    let mut members: Vec<(String, serde_json::Value)> = Vec::new();
    members.push(("password".to_owned(), text_value(registry.password().to_owned())));
    members.push(("pictures_paths".to_owned(), array_value(items)));
    proof {
        lemma_keys_differ();
    }
    let ghost listed = members@;
    let value = object_value(members);
    proof {
        let fields = match json_model(value) {
            JsonModel::Object(fields) => fields,
            _ => Map::empty(),
        };
        assert(fields.contains_key(listed[0].0@) && fields.contains_key(listed[1].0@));
        assert(fields =~= map![
            password_key() => JsonModel::Text(registry@.password),
            entries_key() => JsonModel::Array(
                Seq::new(registry@.entries.len(), |k: int| entry_document(registry@.entries[k])),
            ),
        ]);
    }
    value
}

/// The text of the registry's JSON document, printed with indentation, as it is
/// to be written over the registry file. Printing a registry always succeeds;
/// `PersistError` is left to whoever writes the text.
pub fn to_document(registry: &VaultRegistry) -> (r: Result<String, VaultError>)
    ensures
        r matches Ok(text) && text@ == json_pretty(document_of(registry@)),
{
    let value = to_value(registry);
    match print_value(&value) {
        Ok(text) => Ok(text),
        Err(_) => Err(VaultError::PersistError),
    }
}

/// The document that stands for a registry describes that registry: reading
/// what was written gives back the password and the entries, in their order.
pub proof fn law_document_describes_registry(registry: RegistryView)
    requires
        unique_names(registry.entries),
    ensures
        registry_of(document_of(registry)) == Ok::<RegistryView, VaultError>(registry),
{
    lemma_keys_differ();
    let items = Seq::new(registry.entries.len(), |k: int| entry_document(registry.entries[k]));
    assert forall|i: int| 0 <= i < items.len() implies entry_of(items[i]) == Some(
        registry.entries[i],
    ) by {
        let fields = map![
            name_key() => JsonModel::Text(registry.entries[i].name),
            path_key() => JsonModel::Text(registry.entries[i].path),
        ];
        assert(member(fields, name_key()) == JsonModel::Text(registry.entries[i].name));
        assert(member(fields, path_key()) == JsonModel::Text(registry.entries[i].path));
    }
    assert(entries_of(items) =~= registry.entries);
}

} // verus!
