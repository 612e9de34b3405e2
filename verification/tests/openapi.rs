use oapitui::json::{to_compact_string, JsonValue};
use oapitui::openapi::{
    extract_endpoints, generate_example, resolve_schema_ref, schema_type_label, ApiSpec, DocComponents, MediaType,
    DocOperation, DocParameter, ParameterFormat, ParameterLocation, ParameterRef, DocPathItem, PathItemRef, DocRequestBody,
    RequestBodyRef, DocStatusCode,
};
use oapitui::schema::{DocSchema, DocSchemaKind, SchemaRef, DocStringFormat};

fn schema(kind: DocSchemaKind) -> DocSchema {
    DocSchema { example: None, kind }
}

fn string_schema() -> DocSchema {
    schema(DocSchemaKind::Str { str_enum: vec![], format: DocStringFormat::Empty })
}

fn int_schema() -> DocSchema {
    schema(DocSchemaKind::Integer { int_enum: vec![] })
}

fn item(s: DocSchema) -> SchemaRef {
    SchemaRef::Item(Box::new(s))
}

fn pet_schema() -> DocSchema {
    schema(DocSchemaKind::Object {
        properties: vec![("name".to_string(), item(string_schema())), ("id".to_string(), item(int_schema()))],
    })
}

fn op(summary: Option<&str>, description: Option<&str>) -> DocOperation {
    DocOperation {
        summary: summary.map(|s| s.to_string()),
        description: description.map(|s| s.to_string()),
        operation_id: None,
        tags: vec![],
        parameters: vec![],
        request_body: None,
        responses: vec![],
    }
}

fn empty_item() -> DocPathItem {
    DocPathItem { get: None, post: None, put: None, delete: None, patch: None, head: None, options: None, trace: None }
}

fn spec() -> ApiSpec {
    let mut get = op(Some("List pets"), None);
    get.operation_id = Some("listPets".to_string());
    get.tags = vec!["pets".to_string()];
    get.parameters = vec![
        ParameterRef::Item(DocParameter {
            location: ParameterLocation::Query,
            name: "limit".to_string(),
            required: false,
            description: Some("How many".to_string()),
            format: ParameterFormat::Schema(item(int_schema())),
        }),
        ParameterRef::Reference("#/components/parameters/Trace".to_string()),
        ParameterRef::Reference("#/components/parameters/Missing".to_string()),
    ];
    get.responses = vec![DocStatusCode::Code(200), DocStatusCode::Range(4)];
    let mut post = op(None, Some("Create a pet"));
    post.request_body = Some(RequestBodyRef::Item(DocRequestBody {
        description: Some("The pet".to_string()),
        content: vec![(
            "application/json".to_string(),
            MediaType { schema: Some(SchemaRef::Reference("#/components/schemas/Pet".to_string())) },
        )],
    }));
    let mut pets = empty_item();
    pets.get = Some(get);
    pets.post = Some(post);
    let mut one = empty_item();
    let mut del = op(None, None);
    del.parameters = vec![ParameterRef::Item(DocParameter {
        location: ParameterLocation::Path,
        name: "petId".to_string(),
        required: true,
        description: None,
        format: ParameterFormat::Schema(item(string_schema())),
    })];
    one.delete = Some(del);
    ApiSpec {
        paths: vec![
            ("/pets".to_string(), PathItemRef::Item(pets)),
            ("/skipped".to_string(), PathItemRef::Reference("#/paths/x".to_string())),
            ("/pets/{petId}".to_string(), PathItemRef::Item(one)),
        ],
        components: Some(DocComponents {
            schemas: vec![("Pet".to_string(), item(pet_schema()))],
            parameters: vec![(
                "Trace".to_string(),
                ParameterRef::Item(DocParameter {
                    location: ParameterLocation::Header,
                    name: "X-Trace".to_string(),
                    required: true,
                    description: None,
                    format: ParameterFormat::Schema(item(string_schema())),
                }),
            )],
            request_bodies: vec![],
        }),
        server_urls: vec!["/v1".to_string()],
        description: None,
    }
}

#[test]
fn extract_endpoints_flattens_operations() {
    let eps = extract_endpoints(&spec());
    let names: Vec<(String, String)> = eps.iter().map(|e| (e.method.clone(), e.path.clone())).collect();
    assert_eq!(
        names,
        vec![
            ("GET".to_string(), "/pets".to_string()),
            ("POST".to_string(), "/pets".to_string()),
            ("DELETE".to_string(), "/pets/{petId}".to_string()),
        ]
    );
    let get = &eps[0];
    assert_eq!(get.summary, "List pets");
    assert_eq!(get.operation_id, Some("listPets".to_string()));
    assert_eq!(get.tags, vec!["pets".to_string()]);
    assert_eq!(get.responses, vec!["200".to_string(), "4XX".to_string()]);
    assert_eq!(get.parameters.len(), 2);
    assert_eq!(get.parameters[0].name, "limit");
    assert_eq!(get.parameters[0].location, "query");
    assert_eq!(get.parameters[0].schema_type, "integer");
    assert_eq!(get.parameters[0].description, "How many");
    assert_eq!(to_compact_string(&get.parameters[0].example), "0");
    assert_eq!(get.parameters[1].name, "X-Trace");
    assert_eq!(get.parameters[1].location, "header");
    assert!(get.parameters[1].required);
}

#[test]
fn extract_endpoints_resolves_body_and_summary_fallback() {
    let eps = extract_endpoints(&spec());
    let post = &eps[1];
    assert_eq!(post.summary, "Create a pet");
    let body = post.request_body.as_ref().unwrap();
    assert_eq!(body.content_type, "application/json");
    assert_eq!(body.description, "The pet");
    assert_eq!(to_compact_string(&body.example), "{\"id\":0,\"name\":\"string\"}");
    let del = &eps[2];
    assert_eq!(del.summary, "");
    assert_eq!(del.parameters[0].location, "path");
}

#[test]
fn generate_example_by_kind() {
    let sp = spec();
    assert_eq!(to_compact_string(&generate_example(&string_schema(), &sp, 0)), "\"string\"");
    let dt = schema(DocSchemaKind::Str { str_enum: vec![], format: DocStringFormat::DateTime });
    assert_eq!(to_compact_string(&generate_example(&dt, &sp, 0)), "\"2024-01-01T00:00:00Z\"");
    let uuid = schema(DocSchemaKind::Str { str_enum: vec![], format: DocStringFormat::Unknown("uuid".to_string()) });
    assert_eq!(
        to_compact_string(&generate_example(&uuid, &sp, 0)),
        "\"00000000-0000-0000-0000-000000000000\""
    );
    let en = schema(DocSchemaKind::Str { str_enum: vec![Some("cat".to_string())], format: DocStringFormat::Empty });
    assert_eq!(to_compact_string(&generate_example(&en, &sp, 0)), "\"cat\"");
    let n = schema(DocSchemaKind::Number { num_enum: vec![] });
    assert_eq!(to_compact_string(&generate_example(&n, &sp, 0)), "0.0");
    let i = schema(DocSchemaKind::Integer { int_enum: vec![Some(-7)] });
    assert_eq!(to_compact_string(&generate_example(&i, &sp, 0)), "-7");
    assert_eq!(to_compact_string(&generate_example(&schema(DocSchemaKind::Boolean), &sp, 0)), "false");
    let arr = schema(DocSchemaKind::Array { items: Some(SchemaRef::Reference("#/components/schemas/Pet".to_string())) });
    assert_eq!(to_compact_string(&generate_example(&arr, &sp, 0)), "[{\"id\":0,\"name\":\"string\"}]");
    let no_items = schema(DocSchemaKind::Array { items: None });
    assert_eq!(to_compact_string(&generate_example(&no_items, &sp, 0)), "[\"item\"]");
    let one_of = schema(DocSchemaKind::OneOf(vec![item(int_schema()), item(string_schema())]));
    assert_eq!(to_compact_string(&generate_example(&one_of, &sp, 0)), "0");
    assert_eq!(to_compact_string(&generate_example(&schema(DocSchemaKind::Any), &sp, 0)), "null");
}

#[test]
fn generate_example_inline_example_and_depth_limit() {
    let sp = spec();
    let with_example = DocSchema { example: Some(JsonValue::Str("rex".to_string())), kind: DocSchemaKind::Boolean };
    assert_eq!(to_compact_string(&generate_example(&with_example, &sp, 0)), "\"rex\"");
    assert_eq!(to_compact_string(&generate_example(&with_example, &sp, 9)), "null");
    assert_eq!(to_compact_string(&generate_example(&with_example, &sp, 8)), "\"rex\"");
}

#[test]
fn generate_example_all_of_merges_objects() {
    let sp = spec();
    let extra = schema(DocSchemaKind::Object { properties: vec![("age".to_string(), item(int_schema()))] });
    let all = schema(DocSchemaKind::AllOf(vec![
        SchemaRef::Reference("#/components/schemas/Pet".to_string()),
        item(extra),
        item(string_schema()),
    ]));
    assert_eq!(to_compact_string(&generate_example(&all, &sp, 0)), "{\"age\":0,\"id\":0,\"name\":\"string\"}");
}

#[test]
fn schema_labels_and_refs() {
    let sp = spec();
    assert_eq!(schema_type_label(&pet_schema()), "object");
    assert_eq!(schema_type_label(&schema(DocSchemaKind::AnyOf(vec![]))), "anyOf");
    assert_eq!(schema_type_label(&schema(DocSchemaKind::Not)), "any");
    assert!(resolve_schema_ref("#/components/schemas/Pet", &sp).is_some());
    assert!(resolve_schema_ref("#/components/schemas/Dog", &sp).is_none());
    assert!(resolve_schema_ref("Pet", &sp).is_some());
}
