use picture_vault::document::{entry_from_json, from_document, registry_from_json, to_document};
use picture_vault::error::VaultError;
use picture_vault::json::JsonValue;
use picture_vault::registry::{PlatformEntry, VaultRegistry};

fn entry(name: &str, path: &str) -> PlatformEntry {
    PlatformEntry { name: name.to_string(), path: path.to_string() }
}

fn error_of(text: &str) -> Option<VaultError> {
    from_document(text).err()
}

#[test]
fn document_without_entries_is_read() {
    let registry = from_document(r#"{"password":"pw","pictures_paths":[]}"#).unwrap();
    assert_eq!(registry.password(), "pw");
    assert_eq!(registry.len(), 0);
}

#[test]
fn document_with_entries_is_read_in_order() {
    let text = r#"{
        "pictures_paths": [
            {"path": "/img/b.png", "name": "gitlab"},
            {"name": "github", "path": "/img/a.png", "note": 3}
        ],
        "theme": "dark",
        "password": "pw"
    }"#;
    let registry = from_document(text).unwrap();
    assert_eq!(registry.password(), "pw");
    assert_eq!(registry.len(), 2);
    assert_eq!(registry.entry(0), Some(&entry("gitlab", "/img/b.png")));
    assert_eq!(registry.entry(1), Some(&entry("github", "/img/a.png")));
}

#[test]
fn text_that_is_no_json_is_malformed() {
    assert_eq!(error_of(""), Some(VaultError::MalformedRegistry));
    assert_eq!(error_of("{"), Some(VaultError::MalformedRegistry));
    assert_eq!(error_of(r#"{"password":"pw","pictures_paths":[]} x"#), Some(VaultError::MalformedRegistry));
}

#[test]
fn document_that_is_no_object_is_malformed() {
    assert_eq!(error_of("[]"), Some(VaultError::MalformedRegistry));
    assert_eq!(error_of("null"), Some(VaultError::MalformedRegistry));
    assert_eq!(error_of("\"pw\""), Some(VaultError::MalformedRegistry));
    assert_eq!(error_of("7"), Some(VaultError::MalformedRegistry));
    assert_eq!(error_of("true"), Some(VaultError::MalformedRegistry));
}

#[test]
fn missing_or_null_password_is_no_master_password() {
    assert_eq!(error_of(r#"{"pictures_paths":[]}"#), Some(VaultError::NoMasterPassword));
    assert_eq!(error_of(r#"{"password":null,"pictures_paths":[]}"#), Some(VaultError::NoMasterPassword));
    assert_eq!(error_of("{}"), Some(VaultError::NoMasterPassword));
    assert_eq!(error_of(r#"{"password":null,"pictures_paths":7}"#), Some(VaultError::NoMasterPassword));
}

#[test]
fn password_that_is_no_string_is_malformed() {
    assert_eq!(error_of(r#"{"password":7,"pictures_paths":[]}"#), Some(VaultError::MalformedRegistry));
    assert_eq!(error_of(r#"{"password":false,"pictures_paths":[]}"#), Some(VaultError::MalformedRegistry));
    assert_eq!(error_of(r#"{"password":["pw"],"pictures_paths":[]}"#), Some(VaultError::MalformedRegistry));
    assert_eq!(error_of(r#"{"password":{},"pictures_paths":[]}"#), Some(VaultError::MalformedRegistry));
}

#[test]
fn entries_that_are_no_array_of_entries_are_malformed() {
    assert_eq!(error_of(r#"{"password":"pw"}"#), Some(VaultError::MalformedRegistry));
    assert_eq!(error_of(r#"{"password":"pw","pictures_paths":null}"#), Some(VaultError::MalformedRegistry));
    assert_eq!(error_of(r#"{"password":"pw","pictures_paths":{}}"#), Some(VaultError::MalformedRegistry));
    assert_eq!(error_of(r#"{"password":"pw","pictures_paths":["github"]}"#), Some(VaultError::MalformedRegistry));
    assert_eq!(
        error_of(r#"{"password":"pw","pictures_paths":[{"name":"github"}]}"#),
        Some(VaultError::MalformedRegistry)
    );
    assert_eq!(
        error_of(r#"{"password":"pw","pictures_paths":[{"path":"/a"}]}"#),
        Some(VaultError::MalformedRegistry)
    );
    assert_eq!(
        error_of(r#"{"password":"pw","pictures_paths":[{"name":1,"path":"/a"}]}"#),
        Some(VaultError::MalformedRegistry)
    );
    assert_eq!(
        error_of(r#"{"password":"pw","pictures_paths":[{"name":"a","path":null}]}"#),
        Some(VaultError::MalformedRegistry)
    );
    assert_eq!(
        error_of(r#"{"password":"pw","pictures_paths":[{"name":"a","path":"/a"},[]]}"#),
        Some(VaultError::MalformedRegistry)
    );
}

#[test]
fn names_that_differ_only_in_case_are_malformed() {
    let text = r#"{"password":"pw","pictures_paths":[
        {"name":"github","path":"/a"},{"name":"GitHub","path":"/b"}]}"#;
    assert_eq!(error_of(text), Some(VaultError::MalformedRegistry));
}

fn text(value: &str) -> JsonValue {
    JsonValue::Text(value.to_string())
}

fn object(members: Vec<(&str, JsonValue)>) -> JsonValue {
    JsonValue::Object(members.into_iter().map(|(k, v)| (k.to_string(), v)).collect())
}

#[test]
fn registry_from_json_reads_a_document() {
    let document = object(vec![
        ("password", text("pw")),
        (
            "pictures_paths",
            JsonValue::Array(vec![
                object(vec![("name", text("github")), ("path", text("/img/a.png"))]),
                object(vec![("path", text("/img/b.png")), ("name", text("mail"))]),
            ]),
        ),
    ]);
    let registry = registry_from_json(&document).unwrap();
    assert_eq!(registry.password(), "pw");
    assert_eq!(registry.len(), 2);
    assert_eq!(registry.entry(0), Some(&entry("github", "/img/a.png")));
    assert_eq!(registry.entry(1), Some(&entry("mail", "/img/b.png")));
}

#[test]
fn registry_from_json_tells_the_errors_apart() {
    let error_of = |document: JsonValue| registry_from_json(&document).err();
    assert_eq!(error_of(JsonValue::Null), Some(VaultError::MalformedRegistry));
    assert_eq!(error_of(JsonValue::Array(Vec::new())), Some(VaultError::MalformedRegistry));
    assert_eq!(error_of(text("pw")), Some(VaultError::MalformedRegistry));
    assert_eq!(error_of(object(Vec::new())), Some(VaultError::NoMasterPassword));
    assert_eq!(
        error_of(object(vec![("password", JsonValue::Null), ("pictures_paths", JsonValue::Bool(true))])),
        Some(VaultError::NoMasterPassword)
    );
    assert_eq!(
        error_of(object(vec![
            ("password", JsonValue::Number("7".to_string())),
            ("pictures_paths", JsonValue::Array(Vec::new())),
        ])),
        Some(VaultError::MalformedRegistry)
    );
    assert_eq!(error_of(object(vec![("password", text("pw"))])), Some(VaultError::MalformedRegistry));
    assert_eq!(
        error_of(object(vec![("password", text("pw")), ("pictures_paths", object(Vec::new()))])),
        Some(VaultError::MalformedRegistry)
    );
    assert_eq!(
        error_of(object(vec![
            ("password", text("pw")),
            ("pictures_paths", JsonValue::Array(vec![object(vec![("name", text("a"))])])),
        ])),
        Some(VaultError::MalformedRegistry)
    );
    assert_eq!(
        error_of(object(vec![
            ("password", text("pw")),
            (
                "pictures_paths",
                JsonValue::Array(vec![
                    object(vec![("name", text("a")), ("path", text("/1"))]),
                    object(vec![("name", text("A")), ("path", text("/2"))]),
                ]),
            ),
        ])),
        Some(VaultError::MalformedRegistry)
    );
}

#[test]
fn later_member_counts_where_a_key_comes_twice() {
    let document = object(vec![
        ("password", JsonValue::Null),
        ("pictures_paths", JsonValue::Array(Vec::new())),
        ("password", text("pw")),
    ]);
    assert_eq!(registry_from_json(&document).unwrap().password(), "pw");
    let document = object(vec![
        ("password", text("pw")),
        ("pictures_paths", JsonValue::Array(Vec::new())),
        ("password", JsonValue::Null),
    ]);
    assert_eq!(registry_from_json(&document).err(), Some(VaultError::NoMasterPassword));
}

#[test]
fn entry_from_json_wants_two_strings() {
    let good = object(vec![("name", text("github")), ("path", text("/img/a.png")), ("x", JsonValue::Null)]);
    assert_eq!(entry_from_json(&good), Some(entry("github", "/img/a.png")));
    assert_eq!(entry_from_json(&object(vec![("name", text("github"))])), None);
    assert_eq!(entry_from_json(&object(vec![("path", text("/a"))])), None);
    assert_eq!(
        entry_from_json(&object(vec![("name", JsonValue::Bool(true)), ("path", text("/a"))])),
        None
    );
    assert_eq!(entry_from_json(&text("github")), None);
    assert_eq!(entry_from_json(&JsonValue::Array(Vec::new())), None);
}

#[test]
fn empty_registry_is_printed_with_indentation() {
    let registry = VaultRegistry::new("pw".to_string());
    assert_eq!(
        to_document(&registry),
        Ok("{\n  \"password\": \"pw\",\n  \"pictures_paths\": []\n}".to_string())
    );
}

#[test]
fn registry_with_an_entry_is_printed_with_indentation() {
    let mut registry = VaultRegistry::new("p\"w".to_string());
    assert_eq!(registry.add_platform("github", "/img/a.png"), Ok(()));
    let expected = "{\n  \"password\": \"p\\\"w\",\n  \"pictures_paths\": [\n    {\n      \"name\": \"github\",\n      \"path\": \"/img/a.png\"\n    }\n  ]\n}";
    assert_eq!(to_document(&registry), Ok(expected.to_string()));
}

#[test]
fn what_is_written_is_read_back() {
    let mut registry = VaultRegistry::new("pässwörd".to_string());
    assert_eq!(registry.add_platform("GitHub", "C:\\img\\a.png"), Ok(()));
    assert_eq!(registry.add_platform("mail", "/img/\"b\".png"), Ok(()));
    let text = to_document(&registry).unwrap();
    let again = from_document(&text).unwrap();
    assert_eq!(again.password(), "pässwörd");
    assert_eq!(again.len(), 2);
    assert_eq!(again.entry(0), Some(&entry("GitHub", "C:\\img\\a.png")));
    assert_eq!(again.entry(1), Some(&entry("mail", "/img/\"b\".png")));
}
