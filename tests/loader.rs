use lexicons::document::LexiconDoc;
use lexicons::json::Json;
use lexicons::loader::LoadError;
use lexicons::model::{Lexicon, LexiconPrimitive, LexiconType};

fn obj(members: Vec<(&str, Json)>) -> Json {
    Json::Object(members.into_iter().map(|(k, v)| (k.to_string(), v)).collect())
}

fn s(text: &str) -> Json {
    Json::Str(text.to_string())
}

fn load(text: &str) -> Result<Vec<Lexicon>, LoadError> {
    LexiconDoc::parse(text.as_bytes()).unwrap().lexicons()
}

#[test]
fn expand_gives_one_lexicon_per_definition() {
    let text = r#"{"lexicon": 1, "id": "com.atproto.server.createSession",
        "defs": {"main": {"type": "token"}, "foo": {"type": "blob"}, "bar": {"type": "audio"}}}"#;
    let lexicons = load(text).unwrap();
    assert_eq!(lexicons.len(), 3);
    let base: Vec<&Lexicon> = lexicons
        .iter()
        .filter(|l| l.id == "com.atproto.server.createSession")
        .collect();
    assert_eq!(base.len(), 1);
    assert!(matches!(base[0].typ, LexiconType::Token));
}

#[test]
fn other_names_are_appended_without_separator() {
    let text = r#"{"lexicon": 1, "id": "com.atproto.server.createSession",
        "defs": {"foo": {"type": "token"}}}"#;
    let lexicons = load(text).unwrap();
    assert_eq!(lexicons[0].id, "com.atproto.server.createSessionfoo");
}

#[test]
fn unknown_type_tag_is_rejected() {
    let text = r#"{"lexicon": 1, "id": "com.example.thing",
        "defs": {"main": {"type": "widget"}}}"#;
    match load(text) {
        Err(LoadError::UnknownVariant { id, tag }) => {
            assert_eq!(id, "com.example.thing");
            assert_eq!(tag, "widget");
        }
        other => panic!("unexpected: {:?}", other),
    }
}

#[test]
fn unknown_primitive_tag_is_rejected() {
    let text = r#"{"lexicon": 1, "id": "com.example.thing",
        "defs": {"main": {"type": "object", "properties": {"x": {"type": "float"}}}}}"#;
    match load(text) {
        Err(LoadError::UnknownVariant { tag, .. }) => assert_eq!(tag, "float"),
        other => panic!("unexpected: {:?}", other),
    }
}

#[test]
fn object_without_properties_is_a_mismatch() {
    let text = r#"{"lexicon": 1, "id": "com.example.thing",
        "defs": {"main": {"type": "object", "required": []}}}"#;
    match load(text) {
        Err(LoadError::SchemaMismatch { id }) => assert_eq!(id, "com.example.thing"),
        other => panic!("unexpected: {:?}", other),
    }
}

#[test]
fn body_without_encoding_is_a_mismatch() {
    let text = r#"{"lexicon": 1, "id": "com.example.call",
        "defs": {"main": {"type": "query", "output": {"schema": {"properties": {}}}}}}"#;
    assert!(matches!(load(text), Err(LoadError::SchemaMismatch { .. })));
}

#[test]
fn missing_type_is_a_mismatch() {
    let text = r#"{"lexicon": 1, "id": "com.example.thing", "defs": {"main": {}}}"#;
    assert!(matches!(load(text), Err(LoadError::SchemaMismatch { .. })));
}

#[test]
fn not_json_is_malformed() {
    assert!(matches!(LexiconDoc::parse(b"{not json"), Err(LoadError::MalformedDocument)));
}

#[test]
fn missing_id_is_malformed() {
    let text = r#"{"lexicon": 1, "defs": {"main": {"type": "token"}}}"#;
    assert!(matches!(LexiconDoc::parse(text.as_bytes()), Err(LoadError::MalformedDocument)));
}

#[test]
fn missing_version_is_malformed() {
    let text = r#"{"id": "a.b", "defs": {"main": {"type": "token"}}}"#;
    assert!(matches!(LexiconDoc::parse(text.as_bytes()), Err(LoadError::MalformedDocument)));
}

#[test]
fn missing_defs_is_malformed() {
    let text = r#"{"lexicon": 1, "id": "a.b"}"#;
    assert!(matches!(LexiconDoc::parse(text.as_bytes()), Err(LoadError::MalformedDocument)));
}

#[test]
fn empty_defs_is_malformed() {
    let text = r#"{"lexicon": 1, "id": "a.b", "defs": {}}"#;
    assert!(matches!(LexiconDoc::parse(text.as_bytes()), Err(LoadError::MalformedDocument)));
}

#[test]
fn repeated_definition_name_is_malformed() {
    let doc = obj(vec![
        ("lexicon", Json::Number(Some(1))),
        ("id", s("a.b")),
        ("defs", obj(vec![("main", obj(vec![("type", s("token"))])), ("main", obj(vec![]))])),
    ]);
    assert!(matches!(LexiconDoc::from_json(doc), Err(LoadError::MalformedDocument)));
}

#[test]
fn object_fields_are_decoded() {
    let text = r#"{"lexicon": 1, "id": "com.example.account", "description": "An account",
        "defs": {"main": {"type": "object", "revision": 3, "description": "Account",
            "required": ["did"],
            "properties": {"did": {"type": "string"}, "age": {"type": "integer"},
                "kind": {"type": "string", "enum": ["a", "b"]}}}}}"#;
    let lexicons = load(text).unwrap();
    let l = &lexicons[0];
    assert_eq!(l.revision, Some(3));
    assert_eq!(l.description.as_deref(), Some("Account"));
    match &l.typ {
        LexiconType::Object { inner } => {
            assert_eq!(inner.required, vec!["did".to_string()]);
            assert_eq!(inner.properties.len(), 3);
            let kind = inner.properties.iter().find(|p| p.0 == "kind").unwrap();
            match &kind.1 {
                LexiconPrimitive::String { enum_values } => {
                    assert_eq!(enum_values.clone().unwrap(), vec!["a".to_string(), "b".to_string()])
                }
                other => panic!("unexpected: {:?}", other),
            }
            let age = inner.properties.iter().find(|p| p.0 == "age").unwrap();
            assert!(matches!(age.1, LexiconPrimitive::Integer));
        }
        other => panic!("unexpected: {:?}", other),
    }
}

#[test]
fn procedure_parts_are_decoded() {
    let text = r#"{"lexicon": 1, "id": "com.atproto.server.createSession",
        "defs": {"main": {"type": "procedure",
            "parameters": {"type": "params", "properties": {"q": {"type": "string"}}},
            "input": {"encoding": "application/json", "schema": {"properties": {"identifier": {"type": "string"}}}},
            "errors": [{"name": "AccountTakedown"}, {"name": "Other", "description": "x"}]}}}"#;
    let lexicons = load(text).unwrap();
    match &lexicons[0].typ {
        LexiconType::Procedure { inner } => {
            assert_eq!(inner.parameters.as_ref().unwrap().typ, "params");
            assert_eq!(inner.input.as_ref().unwrap().encoding, "application/json");
            assert!(inner.output.is_none());
            assert_eq!(inner.errors.len(), 2);
            assert_eq!(inner.errors[0].name, "AccountTakedown");
            assert_eq!(inner.errors[1].description.as_deref(), Some("x"));
        }
        other => panic!("unexpected: {:?}", other),
    }
}

#[test]
fn record_is_decoded() {
    let text = r#"{"lexicon": 1, "id": "app.bsky.feed.post",
        "defs": {"main": {"type": "record", "key": "tid",
            "record": {"properties": {"text": {"type": "string"}}}}}}"#;
    let lexicons = load(text).unwrap();
    match &lexicons[0].typ {
        LexiconType::Record { inner } => {
            assert_eq!(inner.key.as_deref(), Some("tid"));
            assert_eq!(inner.record.properties.len(), 1);
        }
        other => panic!("unexpected: {:?}", other),
    }
}

#[test]
fn hand_built_definition_decodes() {
    let def = obj(vec![("type", s("video")), ("revision", Json::Null)]);
    let l = Lexicon::from_json(&def, "a.b".to_string()).unwrap();
    assert!(matches!(l.typ, LexiconType::Video));
    assert_eq!(l.revision, None);
    assert_eq!(l.id, "a.b");
}

#[test]
fn revision_out_of_range_is_a_mismatch() {
    let def = obj(vec![("type", s("blob")), ("revision", Json::Number(Some(1 << 40)))]);
    assert!(matches!(
        Lexicon::from_json(&def, "a.b".to_string()),
        Err(LoadError::SchemaMismatch { .. })
    ));
}

#[test]
fn required_name_without_field_is_a_mismatch() {
    let text = r#"{"lexicon": 1, "id": "com.example.account",
        "defs": {"main": {"type": "object", "required": ["did", "handle"],
            "properties": {"did": {"type": "string"}}}}}"#;
    match load(text) {
        Err(LoadError::SchemaMismatch { id }) => assert_eq!(id, "com.example.account"),
        other => panic!("unexpected: {:?}", other),
    }
}
