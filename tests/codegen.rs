use lexicons::codegen::{decl_name_of, GenError};
use lexicons::document::LexiconDoc;
use lexicons::model::{Lexicon, LexiconObject, LexiconPrimitive, LexiconType};

fn generate(text: &str) -> Result<String, GenError> {
    let lexicons = LexiconDoc::parse(text.as_bytes()).unwrap().lexicons().unwrap();
    lexicons[0].codegen()
}

#[test]
fn required_and_optional_fields() {
    let text = r#"{"lexicon": 1, "id": "com.example.account",
        "defs": {"main": {"type": "object", "required": ["did"],
            "properties": {"did": {"type": "string"}, "email": {"type": "string"}}}}}"#;
    assert_eq!(
        generate(text).unwrap(),
        "pub struct Account {\n    pub did: String,\n    pub email: Option<String>,\n}\n"
    );
}

#[test]
fn procedure_with_only_output() {
    let text = r#"{"lexicon": 1, "id": "com.atproto.server.createSession",
        "defs": {"main": {"type": "procedure",
            "output": {"encoding": "application/json",
                "schema": {"required": ["accessJwt"], "properties": {"accessJwt": {"type": "string"}}}}}}}"#;
    let out = generate(text).unwrap();
    assert_eq!(out, "pub struct CreateSessionOutput {\n    pub accessJwt: String,\n}\n");
    assert!(!out.contains("Params"));
    assert!(!out.contains("Input"));
}

#[test]
fn query_with_all_parts() {
    let text = r#"{"lexicon": 1, "id": "app.bsky.feed.getPostThread",
        "defs": {"main": {"type": "query",
            "parameters": {"type": "params", "properties": {"uri": {"type": "string"}, "depth": {"type": "integer"}}},
            "input": {"encoding": "application/json", "schema": {"properties": {"flag": {"type": "boolean"}}}},
            "output": {"encoding": "application/json", "schema": {"required": ["score"], "properties": {"score": {"type": "number"}}}}}}}"#;
    assert_eq!(
        generate(text).unwrap(),
        "pub struct GetPostThreadParams {\n    pub depth: i64,\n    pub uri: String,\n}\n\
         pub struct GetPostThreadInput {\n    pub flag: Option<bool>,\n}\n\
         pub struct GetPostThreadOutput {\n    pub score: f64,\n}\n"
    );
}

#[test]
fn token_is_unsupported() {
    let text = r#"{"lexicon": 1, "id": "com.example.marker", "defs": {"main": {"type": "token"}}}"#;
    match generate(text) {
        Err(GenError::UnsupportedVariant { id, variant }) => {
            assert_eq!(id, "com.example.marker");
            assert_eq!(variant, "token");
        }
        other => panic!("unexpected: {:?}", other),
    }
}

#[test]
fn record_is_unsupported() {
    let text = r#"{"lexicon": 1, "id": "app.bsky.feed.post",
        "defs": {"main": {"type": "record", "record": {"properties": {}}}}}"#;
    assert!(matches!(generate(text), Err(GenError::UnsupportedVariant { .. })));
}

#[test]
fn empty_object_has_no_fields() {
    let l = Lexicon {
        id: "com.example.empty".to_string(),
        revision: None,
        description: None,
        typ: LexiconType::Object {
            inner: LexiconObject { required: vec![], properties: vec![] },
        },
    };
    assert_eq!(l.codegen().unwrap(), "pub struct Empty {\n}\n");
}

#[test]
fn identifier_without_dots_is_used_whole() {
    let l = Lexicon {
        id: "session_info".to_string(),
        revision: None,
        description: None,
        typ: LexiconType::Object {
            inner: LexiconObject {
                required: vec!["ghost".to_string()],
                properties: vec![("n".to_string(), LexiconPrimitive::Integer)],
            },
        },
    };
    assert_eq!(l.codegen().unwrap(), "pub struct SessionInfo {\n    pub n: Option<i64>,\n}\n");
}

#[test]
fn declaration_name_is_last_segment() {
    assert_eq!(decl_name_of("com.atproto.server.createSession"), "CreateSession");
    assert_eq!(decl_name_of("com.example."), "");
}
