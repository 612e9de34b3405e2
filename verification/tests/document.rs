use oapitui::document::{read_document, response_json};
use oapitui::json::JsonValue;
use oapitui::openapi::{extract_endpoints, PathItemRef};

const JSON_DOC: &str = r#"{
  "openapi": "3.0.0",
  "info": {"title": "Pets", "version": "1", "description": "All about pets"},
  "servers": [{"url": "/v1"}],
  "paths": {
    "/pets/{id}": {
      "get": {
        "summary": "Get a pet",
        "parameters": [{"name": "id", "in": "path", "required": true, "schema": {"type": "integer"}}],
        "responses": {"200": {"description": "ok"}}
      }
    }
  }
}"#;

const YAML_DOC: &str = "openapi: 3.0.0
info:
  title: Pets
  version: '1'
paths:
  /pets:
    post:
      summary: Add a pet
      responses:
        '201':
          description: created
";

#[test]
fn reads_a_json_document() {
    let d = read_document(JSON_DOC).expect("a JSON document");
    assert_eq!(d.server_urls, vec!["/v1".to_string()]);
    assert_eq!(d.description.as_deref(), Some("All about pets"));
    assert_eq!(d.paths.len(), 1);
    assert_eq!(d.paths[0].0, "/pets/{id}");
    assert!(matches!(&d.paths[0].1, PathItemRef::Item(i) if i.get.is_some() && i.post.is_none()));
    let eps = extract_endpoints(&d);
    assert_eq!(eps.len(), 1);
    assert_eq!(eps[0].method, "GET");
    assert_eq!(eps[0].parameters[0].name, "id");
    assert_eq!(eps[0].parameters[0].schema_type, "integer");
}

#[test]
fn falls_back_to_yaml() {
    let d = read_document(YAML_DOC).expect("a YAML document");
    let eps = extract_endpoints(&d);
    assert_eq!(eps.len(), 1);
    assert_eq!(eps[0].method, "POST");
    assert_eq!(eps[0].path, "/pets");
    assert_eq!(eps[0].summary, "Add a pet");
}

#[test]
fn rejects_what_is_no_document() {
    assert!(read_document("not: [an, openapi").is_none());
    assert!(read_document("{\"hello\": 1}").is_none());
}

#[test]
fn response_bodies_as_json() {
    match response_json("{\"a\": [1, true, null]}") {
        Some(JsonValue::Object(members)) => {
            assert_eq!(members.len(), 1);
            assert_eq!(members[0].0, "a");
            assert!(matches!(&members[0].1, JsonValue::Array(items) if items.len() == 3));
        },
        _ => panic!("expected an object"),
    }
    assert!(response_json("plain text").is_none());
}
