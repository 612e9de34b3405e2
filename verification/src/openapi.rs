//! Model of an OpenAPI document and the flattened endpoints taken from it, with
//! `$ref`s to parameters, request bodies and schemas resolved inline.

use vstd::prelude::*;
use crate::json::{JsonValue, JsonView, json_view, nat_text, push_nat, chars_eq};
use crate::schema::{
    DocSchema, SchemaRef, SchemaRefView, SchemaView, DocSchemaKind, SchemaKindView, last_segment,
    last_segment_of, lookup, resolve_in, example_of, example_value, find_schema, clone_schema,
    prop_views, lemma_prop_views, str_is,
};
use crate::text::{chars_of, string_of};

verus! {

/// A parsed OpenAPI document: what the endpoint list and the request builder read of it.
pub struct ApiSpec {
    pub paths: Vec<(String, PathItemRef)>,
    pub components: Option<DocComponents>,
    /// The `url` of each entry of `servers`, in order.
    pub server_urls: Vec<String>,
    /// `info.description`.
    pub description: Option<String>,
}

pub struct DocComponents {
    pub schemas: Vec<(String, SchemaRef)>,
    pub parameters: Vec<(String, ParameterRef)>,
    pub request_bodies: Vec<(String, RequestBodyRef)>,
}

pub enum PathItemRef {
    Item(DocPathItem),
    Reference(String),
}

pub struct DocPathItem {
    pub get: Option<DocOperation>,
    pub post: Option<DocOperation>,
    pub put: Option<DocOperation>,
    pub delete: Option<DocOperation>,
    pub patch: Option<DocOperation>,
    pub head: Option<DocOperation>,
    pub options: Option<DocOperation>,
    pub trace: Option<DocOperation>,
}

pub struct DocOperation {
    pub summary: Option<String>,
    pub description: Option<String>,
    pub operation_id: Option<String>,
    pub tags: Vec<String>,
    pub parameters: Vec<ParameterRef>,
    pub request_body: Option<RequestBodyRef>,
    /// The keys of `responses`, in order.
    pub responses: Vec<DocStatusCode>,
}

pub enum DocStatusCode {
    Code(u16),
    Range(u16),
}

pub enum ParameterRef {
    Item(DocParameter),
    Reference(String),
}

pub enum ParameterLocation {
    Query,
    Path,
    Header,
    Cookie,
}

pub struct DocParameter {
    pub location: ParameterLocation,
    pub name: String,
    pub required: bool,
    pub description: Option<String>,
    pub format: ParameterFormat,
}

pub enum ParameterFormat {
    Schema(SchemaRef),
    Content,
}

pub enum RequestBodyRef {
    Item(DocRequestBody),
    Reference(String),
}

pub struct DocRequestBody {
    pub description: Option<String>,
    pub content: Vec<(String, MediaType)>,
}

pub struct MediaType {
    pub schema: Option<SchemaRef>,
}

/// A flattened, display-ready endpoint.
pub struct Endpoint {
    pub method: String,
    pub path: String,
    pub summary: String,
    pub operation_id: Option<String>,
    pub tags: Vec<String>,
    pub parameters: Vec<ResolvedParam>,
    pub request_body: Option<ResolvedBody>,
    pub responses: Vec<String>,
}

pub struct ResolvedParam {
    pub name: String,
    /// `path`, `query`, `header` or `cookie`.
    pub location: String,
    pub required: bool,
    pub description: String,
    pub example: JsonValue,
    pub schema_type: String,
}

pub struct ResolvedBody {
    pub content_type: String,
    pub example: JsonValue,
    pub description: String,
}

// ── Views of the flattened endpoints ─────────────────────────────────────────

pub struct ResolvedParamView {
    pub name: Seq<char>,
    pub location: Seq<char>,
    pub required: bool,
    pub description: Seq<char>,
    pub example: JsonView,
    pub schema_type: Seq<char>,
}

pub struct ResolvedBodyView {
    pub content_type: Seq<char>,
    pub example: JsonView,
    pub description: Seq<char>,
}

pub struct EndpointView {
    pub method: Seq<char>,
    pub path: Seq<char>,
    pub summary: Seq<char>,
    pub operation_id: Option<Seq<char>>,
    pub tags: Seq<Seq<char>>,
    pub parameters: Seq<ResolvedParamView>,
    pub request_body: Option<ResolvedBodyView>,
    pub responses: Seq<Seq<char>>,
}

impl View for ResolvedParam {
    type V = ResolvedParamView;

    open spec fn view(&self) -> ResolvedParamView {
        ResolvedParamView {
            name: self.name@,
            location: self.location@,
            required: self.required,
            description: self.description@,
            example: self.example@,
            schema_type: self.schema_type@,
        }
    }
}

impl View for ResolvedBody {
    type V = ResolvedBodyView;

    open spec fn view(&self) -> ResolvedBodyView {
        ResolvedBodyView {
            content_type: self.content_type@,
            example: self.example@,
            description: self.description@,
        }
    }
}

pub open spec fn strings_view(v: Seq<String>) -> Seq<Seq<char>> {
    v.map_values(|s: String| s@)
}

impl View for Endpoint {
    type V = EndpointView;

    open spec fn view(&self) -> EndpointView {
        EndpointView {
            method: self.method@,
            path: self.path@,
            summary: self.summary@,
            operation_id: match self.operation_id {
                Some(s) => Some(s@),
                None => None,
            },
            tags: strings_view(self.tags@),
            parameters: self.parameters@.map_values(|p: ResolvedParam| p@),
            request_body: match self.request_body {
                Some(b) => Some(b@),
                None => None,
            },
            responses: strings_view(self.responses@),
        }
    }
}

// ── Specification of the flattening ─────────────────────────────────────────

pub open spec fn keyed<T>(entries: Seq<(String, T)>) -> Seq<(Seq<char>, T)> {
    entries.map_values(|e: (String, T)| (e.0@, e.1))
}

/// The component schemas, as the `$ref` resolution sees them.
pub open spec fn comps_of(api: ApiSpec) -> Seq<(Seq<char>, SchemaRefView)> {
    match api.components {
        Some(c) => prop_views(c.schemas@),
        None => Seq::empty(),
    }
}

pub open spec fn or_empty(o: Option<String>) -> Seq<char> {
    match o {
        Some(s) => s@,
        None => Seq::empty(),
    }
}

pub open spec fn location_text(l: ParameterLocation) -> Seq<char> {
    match l {
        ParameterLocation::Query => "query"@,
        ParameterLocation::Path => "path"@,
        ParameterLocation::Header => "header"@,
        ParameterLocation::Cookie => "cookie"@,
    }
}

/// The label shown for the type of a schema.
pub open spec fn type_label(k: SchemaKindView) -> Seq<char> {
    match k {
        SchemaKindView::Str { .. } => "string"@,
        SchemaKindView::Integer { .. } => "integer"@,
        SchemaKindView::Number { .. } => "number"@,
        SchemaKindView::Boolean => "boolean"@,
        SchemaKindView::Array { .. } => "array"@,
        SchemaKindView::Object { .. } => "object"@,
        SchemaKindView::AllOf(_) => "allOf"@,
        SchemaKindView::OneOf(_) => "oneOf"@,
        SchemaKindView::AnyOf(_) => "anyOf"@,
        _ => "any"@,
    }
}

/// The parameter object a parameter or `$ref` stands for (a `$ref` is looked up by its
/// last segment among the component parameters and must name an inline one).
pub open spec fn param_target(p: ParameterRef, api: ApiSpec) -> Option<DocParameter> {
    match p {
        ParameterRef::Item(i) => Some(i),
        ParameterRef::Reference(r) => match api.components {
            None => None,
            Some(c) => match lookup(keyed(c.parameters@), last_segment(r@)) {
                Some(ParameterRef::Item(i)) => Some(i),
                _ => None,
            },
        },
    }
}

/// The inline schema of a parameter (a schema `$ref` or `content` give none).
pub open spec fn param_schema(p: DocParameter) -> Option<SchemaView> {
    match p.format {
        ParameterFormat::Schema(SchemaRef::Item(s)) => Some(s@),
        _ => None,
    }
}

pub open spec fn resolved_param(p: DocParameter, api: ApiSpec) -> ResolvedParamView {
    ResolvedParamView {
        name: p.name@,
        location: location_text(p.location),
        required: match p.location {
            ParameterLocation::Path => true,
            _ => p.required,
        },
        description: or_empty(p.description),
        example: match param_schema(p) {
            Some(s) => example_of(s, comps_of(api), 0),
            None => JsonView::Str(Seq::empty()),
        },
        schema_type: match param_schema(p) {
            Some(s) => type_label(s.kind),
            None => "string"@,
        },
    }
}

/// The resolved parameters of an operation: those whose target resolves, in order.
pub open spec fn params_of(ps: Seq<ParameterRef>, api: ApiSpec) -> Seq<ResolvedParamView>
    decreases ps.len(),
{
    if ps.len() == 0 {
        Seq::empty()
    } else {
        params_of(ps.drop_last(), api) + match param_target(ps.last(), api) {
            Some(p) => seq![resolved_param(p, api)],
            None => Seq::empty(),
        }
    }
}

pub open spec fn body_target(b: RequestBodyRef, api: ApiSpec) -> Option<DocRequestBody> {
    match b {
        RequestBodyRef::Item(i) => Some(i),
        RequestBodyRef::Reference(r) => match api.components {
            None => None,
            Some(c) => match lookup(keyed(c.request_bodies@), last_segment(r@)) {
                Some(RequestBodyRef::Item(i)) => Some(i),
                _ => None,
            },
        },
    }
}

/// The media type shown for a body: `application/json` when present, else the first.
pub open spec fn chosen_media(b: DocRequestBody) -> Option<(Seq<char>, MediaType)> {
    match lookup(keyed(b.content@), "application/json"@) {
        Some(m) => Some(("application/json"@, m)),
        None => if b.content@.len() > 0 {
            Some((b.content@[0].0@, b.content@[0].1))
        } else {
            None
        },
    }
}

pub open spec fn media_example(m: MediaType, api: ApiSpec) -> JsonView {
    match m.schema {
        Some(SchemaRef::Item(s)) => example_of(s@, comps_of(api), 0),
        Some(SchemaRef::Reference(r)) => match resolve_in(comps_of(api), r@) {
            Some(s) => example_of(s, comps_of(api), 0),
            None => JsonView::Object(Seq::empty()),
        },
        None => JsonView::Object(Seq::empty()),
    }
}

pub open spec fn body_of(op: DocOperation, api: ApiSpec) -> Option<ResolvedBodyView> {
    match op.request_body {
        None => None,
        Some(r) => match body_target(r, api) {
            None => None,
            Some(b) => match chosen_media(b) {
                None => None,
                Some((ct, m)) => Some(
                    ResolvedBodyView {
                        content_type: ct,
                        example: media_example(m, api),
                        description: or_empty(b.description),
                    },
                ),
            },
        },
    }
}

/// The text of a response key: `200`, or `2XX` for a range.
pub open spec fn code_text(c: DocStatusCode) -> Seq<char> {
    match c {
        DocStatusCode::Code(n) => nat_text(n as nat),
        DocStatusCode::Range(n) => nat_text(n as nat) + seq!['X', 'X'],
    }
}

pub open spec fn endpoint_of(method: Seq<char>, path: Seq<char>, op: DocOperation, api: ApiSpec) -> EndpointView {
    EndpointView {
        method,
        path,
        summary: match op.summary {
            Some(s) => s@,
            None => or_empty(op.description),
        },
        operation_id: match op.operation_id {
            Some(s) => Some(s@),
            None => None,
        },
        tags: strings_view(op.tags@),
        parameters: params_of(op.parameters@, api),
        request_body: body_of(op, api),
        responses: op.responses@.map_values(|c: DocStatusCode| code_text(c)),
    }
}

pub open spec fn op_endpoints(method: Seq<char>, path: Seq<char>, op: Option<DocOperation>, api: ApiSpec) -> Seq<EndpointView> {
    match op {
        Some(o) => seq![endpoint_of(method, path, o, api)],
        None => Seq::empty(),
    }
}

/// The endpoints of one path: one per operation, in the order GET, POST, PUT, DELETE,
/// PATCH, HEAD, OPTIONS, TRACE.
pub open spec fn item_endpoints(path: Seq<char>, pi: DocPathItem, api: ApiSpec) -> Seq<EndpointView> {
    op_endpoints("GET"@, path, pi.get, api) + op_endpoints("POST"@, path, pi.post, api)
        + op_endpoints("PUT"@, path, pi.put, api) + op_endpoints("DELETE"@, path, pi.delete, api)
        + op_endpoints("PATCH"@, path, pi.patch, api) + op_endpoints("HEAD"@, path, pi.head, api)
        + op_endpoints("OPTIONS"@, path, pi.options, api) + op_endpoints("TRACE"@, path, pi.trace, api)
}

/// The endpoints of all paths in document order; path `$ref`s are skipped.
pub open spec fn endpoints_of(paths: Seq<(String, PathItemRef)>, api: ApiSpec) -> Seq<EndpointView>
    decreases paths.len(),
{
    if paths.len() == 0 {
        Seq::empty()
    } else {
        endpoints_of(paths.drop_last(), api) + match paths.last().1 {
            PathItemRef::Item(pi) => item_endpoints(paths.last().0@, pi, api),
            PathItemRef::Reference(_) => Seq::empty(),
        }
    }
}

// ── Lookups and copies ───────────────────────────────────────────────────────

/// The value of the first entry whose key is `key`.
pub fn find_entry<'a, T>(entries: &'a Vec<(String, T)>, key: &Vec<char>) -> (r: Option<&'a T>)
    ensures
        match r {
            Some(x) => lookup(keyed(entries@), key@) == Some(*x),
            None => lookup(keyed(entries@), key@) is None,
        },
{
    let ghost kv = keyed(entries@);
    let mut i: usize = 0;
    assert(kv.skip(0) =~= kv);
    while i < entries.len()
        invariant
            kv == keyed(entries@),
            i <= entries@.len(),
            lookup(kv, key@) == lookup(kv.skip(i as int), key@),
        decreases entries@.len() - i,
    {
        let k = chars_of(entries[i].0.as_str());
        assert(kv.skip(i as int)[0] == kv[i as int]);
        if chars_eq(&k, key) {
            return Some(&entries[i].1);
        }
        assert(kv.skip(i as int).drop_first() =~= kv.skip(i + 1));
        i = i + 1;
    }
    assert(kv.skip(i as int).len() == 0);
    None
}

/// Copies of each string, in order.
pub fn clone_strings(v: &Vec<String>) -> (r: Vec<String>)
    ensures
        strings_view(r@) == strings_view(v@),
{
    let mut out: Vec<String> = Vec::new();
    let mut i: usize = 0;
    while i < v.len()
        invariant
            i <= v@.len(),
            out@.len() == i,
            forall|q: int| 0 <= q < i ==> #[trigger] out@[q]@ == v@[q]@,
        decreases v@.len() - i,
    {
        out.push(v[i].clone());
        i = i + 1;
    }
    assert(strings_view(out@) =~= strings_view(v@));
    out
}

fn opt_string_clone(o: &Option<String>) -> (r: Option<String>)
    ensures
        match r {
            Some(s) => o is Some && s@ == o->0@,
            None => o is None,
        },
{
    match o {
        Some(s) => Some(s.clone()),
        None => None,
    }
}

fn string_or_empty(o: &Option<String>) -> (r: String)
    ensures
        r@ == or_empty(*o),
{
    match o {
        Some(s) => s.clone(),
        None => String::new(),
    }
}

// ── Schemas ──────────────────────────────────────────────────────────────────

/// The label shown for the type of a schema.
pub fn schema_type_label(schema: &DocSchema) -> (r: String)
    ensures
        r@ == type_label(schema@.kind),
{
    match &schema.kind {
        DocSchemaKind::Str { .. } => String::from_str("string"),
        DocSchemaKind::Integer { .. } => String::from_str("integer"),
        DocSchemaKind::Number { .. } => String::from_str("number"),
        DocSchemaKind::Boolean => String::from_str("boolean"),
        DocSchemaKind::Array { .. } => String::from_str("array"),
        DocSchemaKind::Object { .. } => String::from_str("object"),
        DocSchemaKind::AllOf(_) => String::from_str("allOf"),
        DocSchemaKind::OneOf(_) => String::from_str("oneOf"),
        DocSchemaKind::AnyOf(_) => String::from_str("anyOf"),
        _ => String::from_str("any"),
    }
}

/// A copy of the component schema a `$ref` names, when it is given inline there.
pub fn resolve_schema_ref(reference: &str, spec: &ApiSpec) -> (r: Option<DocSchema>)
    ensures
        match r {
            Some(s) => resolve_in(comps_of(*spec), reference@) == Some(s@),
            None => resolve_in(comps_of(*spec), reference@) is None,
        },
{
    match &spec.components {
        Some(c) => match find_schema(&c.schemas, reference) {
            Some(s) => Some(clone_schema(s)),
            None => None,
        },
        None => {
            assert(resolve_in(comps_of(*spec), reference@) is None);
            None
        },
    }
}

/// An example value for `schema` at nesting `depth` (see [`example_of`]).
pub fn generate_example(schema: &DocSchema, spec: &ApiSpec, depth: usize) -> (r: JsonValue)
    ensures
        r@ == example_of(schema@, comps_of(*spec), depth as nat),
{
    match &spec.components {
        Some(c) => example_value(schema, &c.schemas, depth),
        None => {
            let empty: Vec<(String, SchemaRef)> = Vec::new();
            assert(prop_views(empty@) =~= Seq::<(Seq<char>, SchemaRefView)>::empty());
            example_value(schema, &empty, depth)
        },
    }
}

fn resolve_in_spec<'a>(reference: &str, spec: &'a ApiSpec) -> (r: Option<&'a DocSchema>)
    ensures
        match r {
            Some(s) => resolve_in(comps_of(*spec), reference@) == Some(s@),
            None => resolve_in(comps_of(*spec), reference@) is None,
        },
{
    match &spec.components {
        Some(c) => find_schema(&c.schemas, reference),
        None => None,
    }
}

// ── Parameters and bodies ────────────────────────────────────────────────────

fn location_string(l: &ParameterLocation) -> (r: String)
    ensures
        r@ == location_text(*l),
{
    match l {
        ParameterLocation::Query => String::from_str("query"),
        ParameterLocation::Path => String::from_str("path"),
        ParameterLocation::Header => String::from_str("header"),
        ParameterLocation::Cookie => String::from_str("cookie"),
    }
}

/// The resolved form of a parameter or parameter `$ref`; `None` when a `$ref` does not
/// name an inline component parameter.
pub fn resolve_param(p: &ParameterRef, spec: &ApiSpec) -> (r: Option<ResolvedParam>)
    ensures
        match r {
            Some(x) => param_target(*p, *spec) is Some && x@ == resolved_param(
                param_target(*p, *spec)->0,
                *spec,
            ),
            None => param_target(*p, *spec) is None,
        },
{
    let param: &DocParameter = match p {
        ParameterRef::Item(i) => i,
        ParameterRef::Reference(reference) => {
            let c = match &spec.components {
                Some(c) => c,
                None => {
                    return None;
                },
            };
            let name = last_segment_of(reference.as_str());
            match find_entry(&c.parameters, &name) {
                Some(ParameterRef::Item(i)) => i,
                _ => {
                    return None;
                },
            }
        },
    };
    let required = match param.location {
        ParameterLocation::Path => true,
        _ => param.required,
    };
    let (example, schema_type) = match &param.format {
        ParameterFormat::Schema(SchemaRef::Item(b)) => (
            generate_example(&**b, spec, 0),
            schema_type_label(&**b),
        ),
        _ => (JsonValue::Str(String::new()), String::from_str("string")),
    };
    Some(
        ResolvedParam {
            name: param.name.clone(),
            location: location_string(&param.location),
            required,
            description: string_or_empty(&param.description),
            example,
            schema_type,
        },
    )
}

/// The resolved parameters of an operation, skipping unresolvable `$ref`s.
pub fn collect_params(op: &DocOperation, spec: &ApiSpec) -> (r: Vec<ResolvedParam>)
    ensures
        r@.map_values(|x: ResolvedParam| x@) == params_of(op.parameters@, *spec),
{
    let mut out: Vec<ResolvedParam> = Vec::new();
    let mut i: usize = 0;
    while i < op.parameters.len()
        invariant
            i <= op.parameters@.len(),
            out@.map_values(|x: ResolvedParam| x@) == params_of(op.parameters@.take(i as int), *spec),
        decreases op.parameters@.len() - i,
    {
        let ghost before = out@;
        match resolve_param(&op.parameters[i], spec) {
            Some(x) => {
                out.push(x);
            },
            None => {},
        }
        assert(op.parameters@.take(i + 1).drop_last() =~= op.parameters@.take(i as int));
        assert(out@.map_values(|x: ResolvedParam| x@) =~= params_of(op.parameters@.take(i + 1), *spec));
        i = i + 1;
    }
    assert(op.parameters@.take(op.parameters@.len() as int) =~= op.parameters@);
    out
}

/// The resolved request body of an operation: the `application/json` media type when
/// present, else the first one, with an example generated from its schema.
pub fn collect_body(op: &DocOperation, spec: &ApiSpec) -> (r: Option<ResolvedBody>)
    ensures
        match r {
            Some(b) => body_of(*op, *spec) == Some(b@),
            None => body_of(*op, *spec) is None,
        },
{
    let body_ref = match &op.request_body {
        Some(b) => b,
        None => {
            return None;
        },
    };
    let body: &DocRequestBody = match body_ref {
        RequestBodyRef::Item(b) => b,
        RequestBodyRef::Reference(reference) => {
            let c = match &spec.components {
                Some(c) => c,
                None => {
                    return None;
                },
            };
            let name = last_segment_of(reference.as_str());
            match find_entry(&c.request_bodies, &name) {
                Some(RequestBodyRef::Item(b)) => b,
                _ => {
                    return None;
                },
            }
        },
    };
    let json_key = chars_of("application/json");
    let (content_type, media): (String, &MediaType) = match find_entry(&body.content, &json_key) {
        Some(m) => (String::from_str("application/json"), m),
        None => {
            if body.content.len() > 0 {
                (body.content[0].0.clone(), &body.content[0].1)
            } else {
                return None;
            }
        },
    };
    let example = match &media.schema {
        Some(SchemaRef::Item(s)) => generate_example(&**s, spec, 0),
        Some(SchemaRef::Reference(reference)) => match resolve_in_spec(reference.as_str(), spec) {
            Some(s) => generate_example(s, spec, 0),
            None => JsonValue::Object(Vec::new()),
        },
        None => JsonValue::Object(Vec::new()),
    };
    proof {
        crate::json::lemma_member_views(Seq::<(String, JsonValue)>::empty());
    }
    assert(crate::json::member_views(Seq::<(String, JsonValue)>::empty()) =~= Seq::<(Seq<char>, JsonView)>::empty());
    Some(ResolvedBody { content_type, example, description: string_or_empty(&body.description) })
}

/// The text of a response key.
pub fn status_code_text(c: &DocStatusCode) -> (r: String)
    ensures
        r@ == code_text(*c),
{
    let mut v: Vec<char> = Vec::new();
    match c {
        DocStatusCode::Code(n) => {
            push_nat(&mut v, *n as u128);
        },
        DocStatusCode::Range(n) => {
            push_nat(&mut v, *n as u128);
            v.push('X');
            v.push('X');
        },
    }
    assert(v@ =~= code_text(*c));
    string_of(v.as_slice())
}

fn make_endpoint(method: &str, path: &String, op: &DocOperation, spec: &ApiSpec) -> (e: Endpoint)
    ensures
        e@ == endpoint_of(method@, path@, *op, *spec),
{
    let parameters = collect_params(op, spec);
    let request_body = collect_body(op, spec);
    let mut responses: Vec<String> = Vec::new();
    let mut i: usize = 0;
    while i < op.responses.len()
        invariant
            i <= op.responses@.len(),
            responses@.len() == i,
            forall|q: int| 0 <= q < i ==> #[trigger] responses@[q]@ == code_text(op.responses@[q]),
        decreases op.responses@.len() - i,
    {
        responses.push(status_code_text(&op.responses[i]));
        i = i + 1;
    }
    let summary = match &op.summary {
        Some(s) => s.clone(),
        None => string_or_empty(&op.description),
    };
    let e = Endpoint {
        method: String::from_str(method),
        path: path.clone(),
        summary,
        operation_id: opt_string_clone(&op.operation_id),
        tags: clone_strings(&op.tags),
        parameters,
        request_body,
        responses,
    };
    assert(strings_view(e.responses@) =~= op.responses@.map_values(|c: DocStatusCode| code_text(c)));
    e
}

fn push_op(out: &mut Vec<Endpoint>, method: &str, path: &String, op: &Option<DocOperation>, spec: &ApiSpec)
    ensures
        final(out)@.map_values(|e: Endpoint| e@) == old(out)@.map_values(|e: Endpoint| e@) + op_endpoints(
            method@,
            path@,
            *op,
            *spec,
        ),
{
    match op {
        Some(o) => {
            let e = make_endpoint(method, path, o, spec);
            out.push(e);
        },
        None => {},
    }
    assert(final(out)@.map_values(|e: Endpoint| e@) =~= old(out)@.map_values(|e: Endpoint| e@) + op_endpoints(
        method@,
        path@,
        *op,
        *spec,
    ));
}

fn push_item(out: &mut Vec<Endpoint>, path: &String, pi: &DocPathItem, spec: &ApiSpec)
    ensures
        final(out)@.map_values(|e: Endpoint| e@) == old(out)@.map_values(|e: Endpoint| e@)
            + item_endpoints(path@, *pi, *spec),
{
    let ghost g0 = out@.map_values(|e: Endpoint| e@);
    let ghost p = path@;
    push_op(out, "GET", path, &pi.get, spec);
    let ghost a = op_endpoints("GET"@, p, pi.get, *spec);
    push_op(out, "POST", path, &pi.post, spec);
    let ghost acc = a + op_endpoints("POST"@, p, pi.post, *spec);
    assert(out@.map_values(|e: Endpoint| e@) =~= g0 + acc);
    push_op(out, "PUT", path, &pi.put, spec);
    let ghost acc = acc + op_endpoints("PUT"@, p, pi.put, *spec);
    assert(out@.map_values(|e: Endpoint| e@) =~= g0 + acc);
    push_op(out, "DELETE", path, &pi.delete, spec);
    let ghost acc = acc + op_endpoints("DELETE"@, p, pi.delete, *spec);
    assert(out@.map_values(|e: Endpoint| e@) =~= g0 + acc);
    push_op(out, "PATCH", path, &pi.patch, spec);
    let ghost acc = acc + op_endpoints("PATCH"@, p, pi.patch, *spec);
    assert(out@.map_values(|e: Endpoint| e@) =~= g0 + acc);
    push_op(out, "HEAD", path, &pi.head, spec);
    let ghost acc = acc + op_endpoints("HEAD"@, p, pi.head, *spec);
    assert(out@.map_values(|e: Endpoint| e@) =~= g0 + acc);
    push_op(out, "OPTIONS", path, &pi.options, spec);
    let ghost acc = acc + op_endpoints("OPTIONS"@, p, pi.options, *spec);
    assert(out@.map_values(|e: Endpoint| e@) =~= g0 + acc);
    push_op(out, "TRACE", path, &pi.trace, spec);
    let ghost acc = acc + op_endpoints("TRACE"@, p, pi.trace, *spec);
    assert(out@.map_values(|e: Endpoint| e@) =~= g0 + acc);
    assert(acc == item_endpoints(path@, *pi, *spec));
}

/// All endpoints of a document in path order, each path's operations in the order GET,
/// POST, PUT, DELETE, PATCH, HEAD, OPTIONS, TRACE; path `$ref`s are skipped.
pub fn extract_endpoints(spec: &ApiSpec) -> (r: Vec<Endpoint>)
    ensures
        r@.map_values(|e: Endpoint| e@) == endpoints_of(spec.paths@, *spec),
{
    let mut out: Vec<Endpoint> = Vec::new();
    let mut i: usize = 0;
    while i < spec.paths.len()
        invariant
            i <= spec.paths@.len(),
            out@.map_values(|e: Endpoint| e@) == endpoints_of(spec.paths@.take(i as int), *spec),
        decreases spec.paths@.len() - i,
    {
        let ghost before = out@.map_values(|e: Endpoint| e@);
        let path = &spec.paths[i].0;
        match &spec.paths[i].1 {
            PathItemRef::Item(pi) => {
                push_item(&mut out, path, pi, spec);
            },
            PathItemRef::Reference(_) => {},
        }
        assert(spec.paths@.take(i + 1).drop_last() =~= spec.paths@.take(i as int));
        assert(out@.map_values(|e: Endpoint| e@) =~= endpoints_of(spec.paths@.take(i + 1), *spec));
        i = i + 1;
    }
    assert(spec.paths@.take(spec.paths@.len() as int) =~= spec.paths@);
    out
}

} // verus!
