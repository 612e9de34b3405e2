//! Reading an OpenAPI document (JSON first, then YAML) into the library's model, and
//! reading a response body as JSON.

use vstd::prelude::*;
use crate::json::JsonValue;
use crate::schema::opt_json_view;
use crate::schema as model_schema;
use crate::openapi::ApiSpec;
use crate::openapi as model;
use crate::json::JsonView;

verus! {

#[verifier::external_type_specification]
#[verifier::external_body]
pub struct ExOpenApi(openapiv3::OpenAPI);

#[verifier::external_type_specification]
#[verifier::external_body]
pub struct ExOpenApiPathItem(openapiv3::PathItem);

#[verifier::external_type_specification]
#[verifier::external_body]
pub struct ExOpenApiOperation(openapiv3::Operation);

#[verifier::external_type_specification]
#[verifier::external_body]
pub struct ExOpenApiParameter(openapiv3::Parameter);

#[verifier::external_type_specification]
#[verifier::external_body]
pub struct ExOpenApiRequestBody(openapiv3::RequestBody);

#[verifier::external_type_specification]
#[verifier::external_body]
pub struct ExOpenApiSchema(openapiv3::Schema);

#[verifier::external_type_specification]
#[verifier::external_body]
#[verifier::reject_recursive_types(T)]
pub struct ExOpenApiReferenceOr<T>(openapiv3::ReferenceOr<T>);

#[verifier::external_type_specification]
#[verifier::external_body]
#[verifier::reject_recursive_types(T)]
pub struct ExOpenApiVariantOrUnknownOrEmpty<T>(openapiv3::VariantOrUnknownOrEmpty<T>);

#[verifier::external_type_specification]
#[verifier::external_body]
pub struct ExOpenApiStringFormat(openapiv3::StringFormat);

#[verifier::external_type_specification]
#[verifier::external_body]
pub struct ExJsonValue(serde_json::Value);

#[verifier::external_type_specification]
#[verifier::external_body]
pub struct ExOpenApiComponents(openapiv3::Components);

#[verifier::external_type_specification]
#[verifier::external_body]
pub struct ExOpenApiStatusCode(openapiv3::StatusCode);

#[verifier::external_type_specification]
#[verifier::external_body]
pub struct ExOpenApiParameterData(openapiv3::ParameterData);

#[verifier::external_type_specification]
#[verifier::external_body]
pub struct ExOpenApiSchemaKind(openapiv3::SchemaKind);

#[verifier::external_type_specification]
#[verifier::external_body]
pub struct ExOpenApiType(openapiv3::Type);

#[verifier::external_type_specification]
#[verifier::external_body]
pub struct ExOpenApiNumberType(openapiv3::NumberType);

/// The document that `serde_json` reads from `text` as an `openapiv3::OpenAPI`, in the
/// library's model (`None` where it does not read).
pub uninterp spec fn json_document(text: Seq<char>) -> Option<ApiSpec>;

/// The document that `serde_yaml` reads from `text` as an `openapiv3::OpenAPI`, in the
/// library's model (`None` where it does not read).
pub uninterp spec fn yaml_document(text: Seq<char>) -> Option<ApiSpec>;

/// The JSON value that `serde_json` reads from `text` (`None` where it does not read).
pub uninterp spec fn parsed_json(text: Seq<char>) -> Option<JsonView>;

/// `serde_json::from_str::<openapiv3::OpenAPI>`, converted into the library's model
/// (the result is named [`json_document`]).
#[verifier::external_body]
pub(crate) fn parse_json_document(text: &str) -> (r: Option<ApiSpec>)
    ensures
        r == json_document(text@),
{
    serde_json::from_str::<openapiv3::OpenAPI>(text).ok().map(|d| api_spec_of(&d))
}

/// `serde_yaml::from_str::<openapiv3::OpenAPI>`, converted into the library's model
/// (the result is named [`yaml_document`]).
#[verifier::external_body]
pub(crate) fn parse_yaml_document(text: &str) -> (r: Option<ApiSpec>)
    ensures
        r == yaml_document(text@),
{
    serde_yaml::from_str::<openapiv3::OpenAPI>(text).ok().map(|d| api_spec_of(&d))
}

/// Reads a document as JSON, and where that fails as YAML.
pub fn read_document(text: &str) -> (r: Option<ApiSpec>)
    ensures
        r == match json_document(text@) {
            Some(d) => Some(d),
            None => yaml_document(text@),
        },
{
    match parse_json_document(text) {
        Some(d) => Some(d),
        None => parse_yaml_document(text),
    }
}

/// `serde_json::from_str::<serde_json::Value>`, converted into a [`JsonValue`] (the
/// result is named [`parsed_json`]).
#[verifier::external_body]
pub fn response_json(body: &str) -> (r: Option<JsonValue>)
    ensures
        opt_json_view(r) == parsed_json(body@),
{
    serde_json::from_str::<serde_json::Value>(body).ok().map(|v| json_of(&v))
}

/// Converts a `serde_json::Value` variant by variant (numbers by their text); nothing
/// is stated of the result.
#[verifier::external_body]
fn json_of(v: &serde_json::Value) -> JsonValue {
    match v {
        serde_json::Value::Null => JsonValue::Null,
        serde_json::Value::Bool(b) => JsonValue::Bool(*b),
        serde_json::Value::Number(n) => JsonValue::Number(n.to_string()),
        serde_json::Value::String(t) => JsonValue::Str(t.clone()),
        serde_json::Value::Array(a) => JsonValue::Array(a.iter().map(json_of).collect()),
        serde_json::Value::Object(o) => JsonValue::Object(o.iter().map(|(k, v)| (k.clone(), json_of(v))).collect()),
    }
}

/// Converts an `openapiv3::OpenAPI` field by field; nothing is stated of the result.
#[verifier::external_body]
fn api_spec_of(spec: &openapiv3::OpenAPI) -> ApiSpec {
    ApiSpec {
        paths: spec.paths.paths.iter().map(|(p, item)| (p.clone(), path_item_ref_of(item))).collect(),
        components: spec.components.as_ref().map(components_of),
        server_urls: spec.servers.iter().map(|s| s.url.clone()).collect(),
        description: spec.info.description.clone(),
    }
}

/// Converts the reusable components that the model holds; nothing is stated of the
/// result.
#[verifier::external_body]
fn components_of(c: &openapiv3::Components) -> model::DocComponents {
    model::DocComponents {
        schemas: c.schemas.iter().map(|(k, v)| (k.clone(), schema_ref_of(v))).collect(),
        parameters: c.parameters.iter().map(|(k, v)| (k.clone(), parameter_ref_of(v))).collect(),
        request_bodies: c.request_bodies.iter().map(|(k, v)| (k.clone(), body_ref_of(v))).collect(),
    }
}

/// Converts a path item or its `$ref`; nothing is stated of the result.
#[verifier::external_body]
fn path_item_ref_of(item: &openapiv3::ReferenceOr<openapiv3::PathItem>) -> model::PathItemRef {
    match item {
        openapiv3::ReferenceOr::Item(i) => model::PathItemRef::Item(path_item_of(i)),
        openapiv3::ReferenceOr::Reference { reference } => model::PathItemRef::Reference(reference.clone()),
    }
}

/// Converts a path item operation by operation; nothing is stated of the result.
#[verifier::external_body]
fn path_item_of(i: &openapiv3::PathItem) -> model::DocPathItem {
    model::DocPathItem {
        get: i.get.as_ref().map(operation_of),
        post: i.post.as_ref().map(operation_of),
        put: i.put.as_ref().map(operation_of),
        delete: i.delete.as_ref().map(operation_of),
        patch: i.patch.as_ref().map(operation_of),
        head: i.head.as_ref().map(operation_of),
        options: i.options.as_ref().map(operation_of),
        trace: i.trace.as_ref().map(operation_of),
    }
}

/// Converts an operation field by field (the response codes in order); nothing is
/// stated of the result.
#[verifier::external_body]
fn operation_of(o: &openapiv3::Operation) -> model::DocOperation {
    model::DocOperation {
        summary: o.summary.clone(),
        description: o.description.clone(),
        operation_id: o.operation_id.clone(),
        tags: o.tags.clone(),
        parameters: o.parameters.iter().map(parameter_ref_of).collect(),
        request_body: o.request_body.as_ref().map(body_ref_of),
        responses: o.responses.responses.keys().map(status_code_of).collect(),
    }
}

/// Converts a response status code, one arm per variant; nothing is stated of the
/// result.
#[verifier::external_body]
fn status_code_of(k: &openapiv3::StatusCode) -> model::DocStatusCode {
    match k {
        openapiv3::StatusCode::Code(n) => model::DocStatusCode::Code(*n),
        openapiv3::StatusCode::Range(n) => model::DocStatusCode::Range(*n),
    }
}

/// Converts a parameter or its `$ref`; nothing is stated of the result.
#[verifier::external_body]
fn parameter_ref_of(p: &openapiv3::ReferenceOr<openapiv3::Parameter>) -> model::ParameterRef {
    match p {
        openapiv3::ReferenceOr::Reference { reference } => model::ParameterRef::Reference(reference.clone()),
        openapiv3::ReferenceOr::Item(p) => model::ParameterRef::Item(parameter_of(p)),
    }
}

/// Converts a parameter by its location and data; nothing is stated of the result.
#[verifier::external_body]
fn parameter_of(p: &openapiv3::Parameter) -> model::DocParameter {
    match p {
        openapiv3::Parameter::Query { parameter_data, .. } => parameter_data_of(model::ParameterLocation::Query, parameter_data),
        openapiv3::Parameter::Path { parameter_data, .. } => parameter_data_of(model::ParameterLocation::Path, parameter_data),
        openapiv3::Parameter::Header { parameter_data, .. } => parameter_data_of(model::ParameterLocation::Header, parameter_data),
        openapiv3::Parameter::Cookie { parameter_data, .. } => parameter_data_of(model::ParameterLocation::Cookie, parameter_data),
    }
}

/// Converts the data of a parameter at a location; nothing is stated of the result.
#[verifier::external_body]
fn parameter_data_of(location: model::ParameterLocation, data: &openapiv3::ParameterData) -> model::DocParameter {
    model::DocParameter {
        location,
        name: data.name.clone(),
        required: data.required,
        description: data.description.clone(),
        format: match &data.format {
            openapiv3::ParameterSchemaOrContent::Schema(r) => model::ParameterFormat::Schema(schema_ref_of(r)),
            openapiv3::ParameterSchemaOrContent::Content(_) => model::ParameterFormat::Content,
        },
    }
}

/// Converts a request body or its `$ref`; nothing is stated of the result.
#[verifier::external_body]
fn body_ref_of(b: &openapiv3::ReferenceOr<openapiv3::RequestBody>) -> model::RequestBodyRef {
    match b {
        openapiv3::ReferenceOr::Reference { reference } => model::RequestBodyRef::Reference(reference.clone()),
        openapiv3::ReferenceOr::Item(b) => model::RequestBodyRef::Item(model::DocRequestBody {
            description: b.description.clone(),
            content: b.content.iter().map(|(k, v)| (k.clone(), model::MediaType { schema: v.schema.as_ref().map(schema_ref_of) })).collect(),
        }),
    }
}

/// Converts a schema or its `$ref`; nothing is stated of the result.
#[verifier::external_body]
fn schema_ref_of(r: &openapiv3::ReferenceOr<openapiv3::Schema>) -> model_schema::SchemaRef {
    match r {
        openapiv3::ReferenceOr::Reference { reference } => model_schema::SchemaRef::Reference(reference.clone()),
        openapiv3::ReferenceOr::Item(sc) => model_schema::SchemaRef::Item(Box::new(schema_of(sc))),
    }
}

/// Converts a boxed schema or its `$ref`; nothing is stated of the result.
#[verifier::external_body]
fn boxed_schema_ref_of(r: &openapiv3::ReferenceOr<Box<openapiv3::Schema>>) -> model_schema::SchemaRef {
    match r {
        openapiv3::ReferenceOr::Reference { reference } => model_schema::SchemaRef::Reference(reference.clone()),
        openapiv3::ReferenceOr::Item(sc) => model_schema::SchemaRef::Item(Box::new(schema_of(sc))),
    }
}

/// Converts a schema: its kind and its example; nothing is stated of the result.
#[verifier::external_body]
fn schema_of(sc: &openapiv3::Schema) -> model_schema::DocSchema {
    model_schema::DocSchema { example: sc.schema_data.example.as_ref().map(json_of), kind: kind_of(&sc.schema_kind) }
}

/// Converts a schema kind, one arm per variant; nothing is stated of the result.
#[verifier::external_body]
fn kind_of(k: &openapiv3::SchemaKind) -> model_schema::DocSchemaKind {
    match k {
        openapiv3::SchemaKind::Type(t) => type_kind_of(t),
        openapiv3::SchemaKind::AllOf { all_of } => model_schema::DocSchemaKind::AllOf(all_of.iter().map(schema_ref_of).collect()),
        openapiv3::SchemaKind::OneOf { one_of } => model_schema::DocSchemaKind::OneOf(one_of.iter().map(schema_ref_of).collect()),
        openapiv3::SchemaKind::AnyOf { any_of } => model_schema::DocSchemaKind::AnyOf(any_of.iter().map(schema_ref_of).collect()),
        openapiv3::SchemaKind::Not { .. } => model_schema::DocSchemaKind::Not,
        openapiv3::SchemaKind::Any(_) => model_schema::DocSchemaKind::Any,
    }
}

/// Converts a typed schema, one arm per type; nothing is stated of the result.
#[verifier::external_body]
fn type_kind_of(t: &openapiv3::Type) -> model_schema::DocSchemaKind {
    match t {
        openapiv3::Type::String(t) => model_schema::DocSchemaKind::Str { str_enum: t.enumeration.clone(), format: string_format_of(&t.format) },
        openapiv3::Type::Integer(t) => model_schema::DocSchemaKind::Integer { int_enum: t.enumeration.clone() },
        openapiv3::Type::Number(t) => number_kind_of(t),
        openapiv3::Type::Boolean(_) => model_schema::DocSchemaKind::Boolean,
        openapiv3::Type::Array(a) => model_schema::DocSchemaKind::Array { items: a.items.as_ref().map(boxed_schema_ref_of) },
        openapiv3::Type::Object(o) => model_schema::DocSchemaKind::Object {
            properties: o.properties.iter().map(|(k, v)| (k.clone(), boxed_schema_ref_of(v))).collect(),
        },
    }
}

/// Converts a number schema, each entry of its enumeration into a JSON number; nothing
/// is stated of the result.
#[verifier::external_body]
fn number_kind_of(t: &openapiv3::NumberType) -> model_schema::DocSchemaKind {
    model_schema::DocSchemaKind::Number {
        num_enum: t.enumeration.iter().map(|e| e.map(|n| json_of(&serde_json::Value::from(n)))).collect(),
    }
}

/// Converts a string format, one arm per variant; nothing is stated of the result.
#[verifier::external_body]
fn string_format_of(f: &openapiv3::VariantOrUnknownOrEmpty<openapiv3::StringFormat>) -> model_schema::DocStringFormat {
    match f {
        openapiv3::VariantOrUnknownOrEmpty::Item(openapiv3::StringFormat::Date) => model_schema::DocStringFormat::Date,
        openapiv3::VariantOrUnknownOrEmpty::Item(openapiv3::StringFormat::DateTime) => model_schema::DocStringFormat::DateTime,
        openapiv3::VariantOrUnknownOrEmpty::Item(openapiv3::StringFormat::Password) => model_schema::DocStringFormat::Password,
        openapiv3::VariantOrUnknownOrEmpty::Item(openapiv3::StringFormat::Byte) => model_schema::DocStringFormat::Byte,
        openapiv3::VariantOrUnknownOrEmpty::Item(openapiv3::StringFormat::Binary) => model_schema::DocStringFormat::Binary,
        openapiv3::VariantOrUnknownOrEmpty::Unknown(u) => model_schema::DocStringFormat::Unknown(u.clone()),
        openapiv3::VariantOrUnknownOrEmpty::Empty => model_schema::DocStringFormat::Empty,
    }
}

} // verus!
