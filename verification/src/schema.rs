//! Model of OpenAPI schema objects and the example values derived from them.

use vstd::prelude::*;
use crate::json::{
    JsonValue, JsonView, json_view, int_text, int_to_text, member_views, obj_insert, obj_extend,
    insert_member, extend_members, clone_json, chars_eq,
};
use crate::text::{chars_of, string_of};

verus! {

/// A schema, or a `$ref` pointing at one.
pub enum SchemaRef {
    Item(Box<DocSchema>),
    Reference(String),
}

/// A schema object: an optional inline example and what kind of value it describes.
pub struct DocSchema {
    pub example: Option<JsonValue>,
    pub kind: DocSchemaKind,
}

/// The `format` of a string schema.
pub enum DocStringFormat {
    Date,
    DateTime,
    Password,
    Byte,
    Binary,
    Unknown(String),
    Empty,
}

pub enum DocSchemaKind {
    Str { str_enum: Vec<Option<String>>, format: DocStringFormat },
    Integer { int_enum: Vec<Option<i64>> },
    /// The enumeration entries are the JSON values the numbers stand for.
    Number { num_enum: Vec<Option<JsonValue>> },
    Boolean,
    Array { items: Option<SchemaRef> },
    Object { properties: Vec<(String, SchemaRef)> },
    AllOf(Vec<SchemaRef>),
    OneOf(Vec<SchemaRef>),
    AnyOf(Vec<SchemaRef>),
    Not,
    Any,
}

// ── Views ────────────────────────────────────────────────────────────────────

pub enum SchemaRefView {
    Item(Box<SchemaView>),
    Reference(Seq<char>),
}

pub struct SchemaView {
    pub example: Option<JsonView>,
    pub kind: SchemaKindView,
}

pub enum FormatView {
    Date,
    DateTime,
    Password,
    Byte,
    Binary,
    Unknown(Seq<char>),
    Empty,
}

pub enum SchemaKindView {
    Str { str_enum: Seq<Option<Seq<char>>>, format: FormatView },
    Integer { int_enum: Seq<Option<i64>> },
    Number { num_enum: Seq<Option<JsonView>> },
    Boolean,
    Array { items: Option<SchemaRefView> },
    Object { properties: Seq<(Seq<char>, SchemaRefView)> },
    AllOf(Seq<SchemaRefView>),
    OneOf(Seq<SchemaRefView>),
    AnyOf(Seq<SchemaRefView>),
    Not,
    Any,
}

pub open spec fn opt_json_view(o: Option<JsonValue>) -> Option<JsonView> {
    match o {
        Some(j) => Some(json_view(j)),
        None => None,
    }
}

pub open spec fn opt_string_view(o: Option<String>) -> Option<Seq<char>> {
    match o {
        Some(s) => Some(s@),
        None => None,
    }
}

pub open spec fn format_view(f: DocStringFormat) -> FormatView {
    match f {
        DocStringFormat::Date => FormatView::Date,
        DocStringFormat::DateTime => FormatView::DateTime,
        DocStringFormat::Password => FormatView::Password,
        DocStringFormat::Byte => FormatView::Byte,
        DocStringFormat::Binary => FormatView::Binary,
        DocStringFormat::Unknown(s) => FormatView::Unknown(s@),
        DocStringFormat::Empty => FormatView::Empty,
    }
}

pub open spec fn schema_view(s: DocSchema) -> SchemaView
    decreases s,
{
    SchemaView { example: opt_json_view(s.example), kind: kind_view(s.kind) }
}

pub open spec fn kind_view(k: DocSchemaKind) -> SchemaKindView
    decreases k,
{
    match k {
        DocSchemaKind::Str { str_enum, format } => SchemaKindView::Str {
            str_enum: str_enum@.map_values(|o: Option<String>| opt_string_view(o)),
            format: format_view(format),
        },
        DocSchemaKind::Integer { int_enum } => SchemaKindView::Integer { int_enum: int_enum@ },
        DocSchemaKind::Number { num_enum } => SchemaKindView::Number {
            num_enum: num_enum@.map_values(|o: Option<JsonValue>| opt_json_view(o)),
        },
        DocSchemaKind::Boolean => SchemaKindView::Boolean,
        DocSchemaKind::Array { items } => SchemaKindView::Array {
            items: match items {
                Some(r) => Some(ref_view(r)),
                None => None,
            },
        },
        DocSchemaKind::Object { properties } => SchemaKindView::Object {
            properties: prop_views(properties@),
        },
        DocSchemaKind::AllOf(v) => SchemaKindView::AllOf(ref_views(v@)),
        DocSchemaKind::OneOf(v) => SchemaKindView::OneOf(ref_views(v@)),
        DocSchemaKind::AnyOf(v) => SchemaKindView::AnyOf(ref_views(v@)),
        DocSchemaKind::Not => SchemaKindView::Not,
        DocSchemaKind::Any => SchemaKindView::Any,
    }
}

pub open spec fn ref_view(r: SchemaRef) -> SchemaRefView
    decreases r,
{
    match r {
        SchemaRef::Item(b) => SchemaRefView::Item(Box::new(schema_view(*b))),
        SchemaRef::Reference(s) => SchemaRefView::Reference(s@),
    }
}

pub open spec fn ref_views(v: Seq<SchemaRef>) -> Seq<SchemaRefView>
    decreases v,
{
    if v.len() == 0 {
        Seq::empty()
    } else {
        ref_views(v.drop_last()).push(ref_view(v.last()))
    }
}

pub open spec fn prop_views(v: Seq<(String, SchemaRef)>) -> Seq<(Seq<char>, SchemaRefView)>
    decreases v,
{
    if v.len() == 0 {
        Seq::empty()
    } else {
        prop_views(v.drop_last()).push((v.last().0@, ref_view(v.last().1)))
    }
}

impl View for DocSchema {
    type V = SchemaView;

    open spec fn view(&self) -> SchemaView {
        schema_view(*self)
    }
}

impl View for SchemaRef {
    type V = SchemaRefView;

    open spec fn view(&self) -> SchemaRefView {
        ref_view(*self)
    }
}

pub proof fn lemma_ref_views(v: Seq<SchemaRef>)
    ensures
        ref_views(v).len() == v.len(),
        forall|i: int| 0 <= i < v.len() ==> #[trigger] ref_views(v)[i] == ref_view(v[i]),
    decreases v.len(),
{
    if v.len() > 0 {
        lemma_ref_views(v.drop_last());
    }
}

pub proof fn lemma_prop_views(v: Seq<(String, SchemaRef)>)
    ensures
        prop_views(v).len() == v.len(),
        forall|i: int|
            0 <= i < v.len() ==> #[trigger] prop_views(v)[i] == (v[i].0@, ref_view(v[i].1)),
    decreases v.len(),
{
    if v.len() > 0 {
        lemma_prop_views(v.drop_last());
    }
}

// ── References ───────────────────────────────────────────────────────────────

/// The part of a `$ref` after its last `/` (all of it when there is none).
pub open spec fn last_segment(s: Seq<char>) -> Seq<char>
    decreases s.len(),
{
    if s.len() == 0 {
        s
    } else if s.last() == '/' {
        Seq::empty()
    } else {
        last_segment(s.drop_last()).push(s.last())
    }
}

/// The value of the first entry with key `key`.
pub open spec fn lookup<T>(entries: Seq<(Seq<char>, T)>, key: Seq<char>) -> Option<T>
    decreases entries.len(),
{
    if entries.len() == 0 {
        None
    } else if entries[0].0 == key {
        Some(entries[0].1)
    } else {
        lookup(entries.drop_first(), key)
    }
}

/// The schema a `$ref` names among the component schemas, when it is given inline there.
pub open spec fn resolve_in(comps: Seq<(Seq<char>, SchemaRefView)>, reference: Seq<char>) -> Option<SchemaView> {
    match lookup(comps, last_segment(reference)) {
        Some(SchemaRefView::Item(s)) => Some(*s),
        _ => None,
    }
}

pub proof fn lemma_last_segment(s: Seq<char>, j: int)
    requires
        0 <= j <= s.len(),
        forall|k: int| j <= k < s.len() ==> s[k] != '/',
        j == 0 || s[j - 1] == '/',
    ensures
        last_segment(s) == s.subrange(j, s.len() as int),
    decreases s.len(),
{
    if s.len() > j {
        lemma_last_segment(s.drop_last(), j);
        assert(s.drop_last().subrange(j, s.len() - 1).push(s.last()) =~= s.subrange(j, s.len() as int));
    } else {
        assert(s.subrange(j, s.len() as int) =~= Seq::<char>::empty());
    }
}

/// The characters of `reference` after its last `/`.
pub fn last_segment_of(reference: &str) -> (r: Vec<char>)
    ensures
        r@ == last_segment(reference@),
{
    let cs = chars_of(reference);
    let mut j = cs.len();
    while j > 0 && cs[j - 1] != '/'
        invariant
            j <= cs@.len(),
            forall|k: int| j <= k < cs@.len() ==> cs@[k] != '/',
        decreases j,
    {
        j = j - 1;
    }
    proof {
        lemma_last_segment(cs@, j as int);
    }
    let mut r: Vec<char> = Vec::new();
    let mut i = j;
    while i < cs.len()
        invariant
            j <= i <= cs@.len(),
            r@ == cs@.subrange(j as int, i as int),
        decreases cs@.len() - i,
    {
        r.push(cs[i]);
        assert(cs@.subrange(j as int, i + 1) =~= cs@.subrange(j as int, i as int).push(cs@[i as int]));
        i = i + 1;
    }
    r
}

proof fn lemma_lookup_skip<T>(entries: Seq<(Seq<char>, T)>, key: Seq<char>, i: int)
    requires
        0 <= i < entries.len(),
        entries[i].0 != key,
    ensures
        lookup(entries.skip(i), key) == lookup(entries.skip(i + 1), key),
{
    assert(entries.skip(i)[0] == entries[i]);
    assert(entries.skip(i).drop_first() =~= entries.skip(i + 1));
}

/// The component schema a `$ref` names, when it is given inline there.
pub fn find_schema<'a>(comps: &'a Vec<(String, SchemaRef)>, reference: &str) -> (r: Option<&'a DocSchema>)
    ensures
        match r {
            Some(s) => resolve_in(prop_views(comps@), reference@) == Some(s@),
            None => resolve_in(prop_views(comps@), reference@) is None,
        },
{
    proof {
        lemma_prop_views(comps@);
    }
    let ghost cv = prop_views(comps@);
    let name = last_segment_of(reference);
    let mut i: usize = 0;
    assert(cv.skip(0) =~= cv);
    while i < comps.len()
        invariant
            cv == prop_views(comps@),
            cv.len() == comps@.len(),
            forall|q: int| 0 <= q < comps@.len() ==> #[trigger] cv[q] == (comps@[q].0@, ref_view(comps@[q].1)),
            name@ == last_segment(reference@),
            i <= comps@.len(),
            lookup(cv, name@) == lookup(cv.skip(i as int), name@),
        decreases comps@.len() - i,
    {
        let key = chars_of(comps[i].0.as_str());
        if chars_eq(&key, &name) {
            assert(cv.skip(i as int)[0] == cv[i as int]);
            match &comps[i].1 {
                SchemaRef::Item(b) => {
                    return Some(&**b);
                },
                SchemaRef::Reference(_) => {
                    return None;
                },
            }
        }
        proof {
            lemma_lookup_skip(cv, name@, i as int);
        }
        i = i + 1;
    }
    assert(cv.skip(i as int).len() == 0);
    None
}

// ── Examples ─────────────────────────────────────────────────────────────────

/// Placeholder text for a string of the given format.
pub open spec fn format_text(f: FormatView) -> Seq<char> {
    match f {
        FormatView::DateTime => "2024-01-01T00:00:00Z"@,
        FormatView::Date => "2024-01-01"@,
        FormatView::Password => "secret"@,
        FormatView::Byte => "dGVzdA=="@,
        FormatView::Binary => "binary"@,
        FormatView::Unknown(s) => if s == "uuid"@ {
            "00000000-0000-0000-0000-000000000000"@
        } else if s == "email"@ {
            "user@example.com"@
        } else if s == "uri"@ || s == "url"@ {
            "https://example.com"@
        } else {
            "string"@
        },
        FormatView::Empty => "string"@,
    }
}

/// Whether `s` holds exactly the characters of `lit`.
pub fn str_is(s: &str, lit: &str) -> (r: bool)
    ensures
        r == (s@ == lit@),
{
    let a = chars_of(s);
    let b = chars_of(lit);
    chars_eq(&a, &b)
}

/// Placeholder text for a string of the given format.
pub fn format_example(f: &DocStringFormat) -> (r: String)
    ensures
        r@ == format_text(format_view(*f)),
{
    match f {
        DocStringFormat::DateTime => String::from_str("2024-01-01T00:00:00Z"),
        DocStringFormat::Date => String::from_str("2024-01-01"),
        DocStringFormat::Password => String::from_str("secret"),
        DocStringFormat::Byte => String::from_str("dGVzdA=="),
        DocStringFormat::Binary => String::from_str("binary"),
        DocStringFormat::Unknown(s) => {
            if str_is(s.as_str(), "uuid") {
                String::from_str("00000000-0000-0000-0000-000000000000")
            } else if str_is(s.as_str(), "email") {
                String::from_str("user@example.com")
            } else if str_is(s.as_str(), "uri") || str_is(s.as_str(), "url") {
                String::from_str("https://example.com")
            } else {
                String::from_str("string")
            }
        },
        DocStringFormat::Empty => String::from_str("string"),
    }
}

pub open spec fn or_null(o: Option<JsonView>) -> JsonView {
    match o {
        Some(v) => v,
        None => JsonView::Null,
    }
}

/// The example value for a schema at nesting `depth`: null below depth 8; else the
/// inline example; else by kind (first enumerated value or a format placeholder for
/// strings, `0`, `0.0`, `false`, a one-element array, an object of the properties'
/// examples, the merge of `allOf` members, the first `oneOf`/`anyOf` member).
pub open spec fn example_of(s: SchemaView, comps: Seq<(Seq<char>, SchemaRefView)>, depth: nat) -> JsonView
    decreases 10 - depth, 0int,
{
    if depth > 8 {
        JsonView::Null
    } else if s.example is Some {
        s.example->0
    } else {
        match s.kind {
            SchemaKindView::Str { str_enum, format } => if str_enum.len() > 0 && str_enum[0] is Some {
                JsonView::Str(str_enum[0]->0)
            } else {
                JsonView::Str(format_text(format))
            },
            SchemaKindView::Integer { int_enum } => if int_enum.len() > 0 && int_enum[0] is Some {
                JsonView::Number(int_text(int_enum[0]->0 as int))
            } else {
                JsonView::Number(seq!['0'])
            },
            SchemaKindView::Number { num_enum } => if num_enum.len() > 0 && num_enum[0] is Some {
                num_enum[0]->0
            } else {
                JsonView::Number(seq!['0', '.', '0'])
            },
            SchemaKindView::Boolean => JsonView::Bool(false),
            SchemaKindView::Array { items } => JsonView::Array(
                seq![
                    match items {
                        Some(r) => match ref_example(r, comps, depth + 1) {
                            Some(x) => x,
                            None => JsonView::Str("item"@),
                        },
                        None => JsonView::Str("item"@),
                    },
                ],
            ),
            SchemaKindView::Object { properties } => JsonView::Object(
                props_example(properties, comps, depth + 1),
            ),
            SchemaKindView::AllOf(v) => JsonView::Object(all_of_example(v, comps, depth + 1)),
            SchemaKindView::OneOf(v) => first_example(v, comps, depth + 1),
            SchemaKindView::AnyOf(v) => first_example(v, comps, depth + 1),
            _ => JsonView::Null,
        }
    }
}

/// The example for a schema or reference; `None` when a reference does not resolve.
pub open spec fn ref_example(r: SchemaRefView, comps: Seq<(Seq<char>, SchemaRefView)>, depth: nat) -> Option<JsonView>
    decreases 10 - depth, 1int,
{
    match r {
        SchemaRefView::Item(s) => Some(example_of(*s, comps, depth)),
        SchemaRefView::Reference(name) => match resolve_in(comps, name) {
            Some(s) => Some(example_of(s, comps, depth)),
            None => None,
        },
    }
}

/// Object members from inserting each property's example (null when unresolved), in order.
pub open spec fn props_example(props: Seq<(Seq<char>, SchemaRefView)>, comps: Seq<(Seq<char>, SchemaRefView)>, depth: nat) -> Seq<(Seq<char>, JsonView)>
    decreases 10 - depth, 2 + props.len(),
{
    if props.len() == 0 {
        Seq::empty()
    } else {
        obj_insert(
            props_example(props.drop_last(), comps, depth),
            props.last().0,
            or_null(ref_example(props.last().1, comps, depth)),
        )
    }
}

/// Object members merged from the examples of `allOf` members that are objects.
pub open spec fn all_of_example(v: Seq<SchemaRefView>, comps: Seq<(Seq<char>, SchemaRefView)>, depth: nat) -> Seq<(Seq<char>, JsonView)>
    decreases 10 - depth, 2 + v.len(),
{
    if v.len() == 0 {
        Seq::empty()
    } else {
        let acc = all_of_example(v.drop_last(), comps, depth);
        match or_null(ref_example(v.last(), comps, depth)) {
            JsonView::Object(m) => obj_extend(acc, m),
            _ => acc,
        }
    }
}

/// The example of the first member, null when there is none or it does not resolve.
pub open spec fn first_example(v: Seq<SchemaRefView>, comps: Seq<(Seq<char>, SchemaRefView)>, depth: nat) -> JsonView
    decreases 10 - depth, 2int,
{
    if v.len() == 0 {
        JsonView::Null
    } else {
        or_null(ref_example(v[0], comps, depth))
    }
}

/// The example value for `s` at nesting `depth` (see [`example_of`]).
pub fn example_value(s: &DocSchema, comps: &Vec<(String, SchemaRef)>, depth: usize) -> (r: JsonValue)
    ensures
        r@ == example_of(s@, prop_views(comps@), depth as nat),
    decreases 10 - depth, 0int,
{
    let ghost cv = prop_views(comps@);
    if depth > 8 {
        return JsonValue::Null;
    }
    if let Some(ex) = &s.example {
        return clone_json(ex);
    }
    match &s.kind {
        DocSchemaKind::Str { str_enum, format } => {
            if str_enum.len() > 0 {
                if let Some(e) = &str_enum[0] {
                    return JsonValue::Str(e.clone());
                }
            }
            JsonValue::Str(format_example(format))
        },
        DocSchemaKind::Integer { int_enum } => {
            if int_enum.len() > 0 {
                if let Some(e) = int_enum[0] {
                    return JsonValue::Number(int_to_text(e));
                }
            }
            let zero = String::from_str("0");
            proof {
                reveal_strlit("0");
            }
            assert(zero@ =~= seq!['0']);
            JsonValue::Number(zero)
        },
        DocSchemaKind::Number { num_enum } => {
            if num_enum.len() > 0 {
                if let Some(e) = &num_enum[0] {
                    return clone_json(e);
                }
            }
            let zero = String::from_str("0.0");
            proof {
                reveal_strlit("0.0");
            }
            assert(zero@ =~= seq!['0', '.', '0']);
            JsonValue::Number(zero)
        },
        DocSchemaKind::Boolean => JsonValue::Bool(false),
        DocSchemaKind::Array { items } => {
            let item = match items {
                Some(r) => match ref_example_value(r, comps, depth + 1) {
                    Some(x) => x,
                    None => JsonValue::Str(String::from_str("item")),
                },
                None => JsonValue::Str(String::from_str("item")),
            };
            let mut v: Vec<JsonValue> = Vec::new();
            v.push(item);
            let r = JsonValue::Array(v);
            assert(r@ == example_of(s@, cv, depth as nat)) by {
                assert(v@ =~= seq![item]);
                assert(v@.drop_last() =~= Seq::<JsonValue>::empty());
                assert(v@.last() == item);
                assert(crate::json::json_views(Seq::<JsonValue>::empty()) =~= Seq::<JsonView>::empty());
                assert(crate::json::json_views(v@) =~= seq![item@]);
            }
            r
        },
        DocSchemaKind::Object { properties } => {
            proof {
                lemma_prop_views(properties@);
            }
            let ghost pv = prop_views(properties@);
            let mut m: Vec<(String, JsonValue)> = Vec::new();
            let mut i: usize = 0;
            while i < properties.len()
                invariant
                    depth <= 8,
                    i <= properties@.len(),
                    pv == prop_views(properties@),
                    pv.len() == properties@.len(),
                    cv == prop_views(comps@),
                    forall|q: int| 0 <= q < properties@.len() ==> #[trigger] pv[q] == (properties@[q].0@, ref_view(properties@[q].1)),
                    member_views(m@) == props_example(pv.take(i as int), cv, (depth + 1) as nat),
                decreases properties@.len() - i,
            {
                let val = match ref_example_value(&properties[i].1, comps, depth + 1) {
                    Some(x) => x,
                    None => JsonValue::Null,
                };
                insert_member(&mut m, properties[i].0.clone(), val);
                assert(pv.take(i + 1).drop_last() =~= pv.take(i as int));
                i = i + 1;
            }
            assert(pv.take(pv.len() as int) =~= pv);
            JsonValue::Object(m)
        },
        DocSchemaKind::AllOf(v) => {
            proof {
                lemma_ref_views(v@);
            }
            let ghost rv = ref_views(v@);
            let mut m: Vec<(String, JsonValue)> = Vec::new();
            let mut i: usize = 0;
            while i < v.len()
                invariant
                    depth <= 8,
                    i <= v@.len(),
                    rv == ref_views(v@),
                    rv.len() == v@.len(),
                    cv == prop_views(comps@),
                    forall|q: int| 0 <= q < v@.len() ==> #[trigger] rv[q] == ref_view(v@[q]),
                    member_views(m@) == all_of_example(rv.take(i as int), cv, (depth + 1) as nat),
                decreases v@.len() - i,
            {
                let val = match ref_example_value(&v[i], comps, depth + 1) {
                    Some(x) => x,
                    None => JsonValue::Null,
                };
                if let JsonValue::Object(mm) = &val {
                    extend_members(&mut m, mm);
                }
                assert(rv.take(i + 1).drop_last() =~= rv.take(i as int));
                i = i + 1;
            }
            assert(rv.take(rv.len() as int) =~= rv);
            JsonValue::Object(m)
        },
        DocSchemaKind::OneOf(v) | DocSchemaKind::AnyOf(v) => {
            proof {
                lemma_ref_views(v@);
            }
            if v.len() == 0 {
                JsonValue::Null
            } else {
                match ref_example_value(&v[0], comps, depth + 1) {
                    Some(x) => x,
                    None => JsonValue::Null,
                }
            }
        },
        DocSchemaKind::Not => JsonValue::Null,
        DocSchemaKind::Any => JsonValue::Null,
    }
}

/// The example for a schema or reference (see [`ref_example`]).
pub fn ref_example_value(r: &SchemaRef, comps: &Vec<(String, SchemaRef)>, depth: usize) -> (res: Option<JsonValue>)
    ensures
        opt_json_view(res) == ref_example(r@, prop_views(comps@), depth as nat),
    decreases 10 - depth, 1int,
{
    match r {
        SchemaRef::Item(b) => Some(example_value(&**b, comps, depth)),
        SchemaRef::Reference(name) => match find_schema(comps, name.as_str()) {
            Some(s) => Some(example_value(s, comps, depth)),
            None => None,
        },
    }
}

// ── Copies ───────────────────────────────────────────────────────────────────

fn clone_format(f: &DocStringFormat) -> (r: DocStringFormat)
    ensures
        format_view(r) == format_view(*f),
{
    match f {
        DocStringFormat::Date => DocStringFormat::Date,
        DocStringFormat::DateTime => DocStringFormat::DateTime,
        DocStringFormat::Password => DocStringFormat::Password,
        DocStringFormat::Byte => DocStringFormat::Byte,
        DocStringFormat::Binary => DocStringFormat::Binary,
        DocStringFormat::Unknown(s) => DocStringFormat::Unknown(s.clone()),
        DocStringFormat::Empty => DocStringFormat::Empty,
    }
}

fn clone_refs(v: &Vec<SchemaRef>) -> (r: Vec<SchemaRef>)
    ensures
        ref_views(r@) == ref_views(v@),
    decreases v, 0int,
{
    let mut out: Vec<SchemaRef> = Vec::new();
    let mut i: usize = 0;
    while i < v.len()
        invariant
            i <= v@.len(),
            ref_views(out@) == ref_views(v@.take(i as int)),
        decreases v@.len() - i,
    {
        proof {
            assert(decreases_to!(*v => v[i as int]));
        }
        let c = clone_ref(&v[i]);
        let ghost before = out@;
        out.push(c);
        assert(out@.drop_last() =~= before);
        assert(v@.take(i + 1).drop_last() =~= v@.take(i as int));
        i = i + 1;
    }
    assert(v@.take(v@.len() as int) =~= v@);
    out
}

fn clone_props(v: &Vec<(String, SchemaRef)>) -> (r: Vec<(String, SchemaRef)>)
    ensures
        prop_views(r@) == prop_views(v@),
    decreases v, 0int,
{
    let mut out: Vec<(String, SchemaRef)> = Vec::new();
    let mut i: usize = 0;
    while i < v.len()
        invariant
            i <= v@.len(),
            prop_views(out@) == prop_views(v@.take(i as int)),
        decreases v@.len() - i,
    {
        proof {
            assert(decreases_to!(*v => v[i as int]));
            assert(decreases_to!(v[i as int] => v[i as int].1));
        }
        let c = clone_ref(&v[i].1);
        let k = v[i].0.clone();
        let ghost before = out@;
        out.push((k, c));
        assert(out@.drop_last() =~= before);
        assert(v@.take(i + 1).drop_last() =~= v@.take(i as int));
        i = i + 1;
    }
    assert(v@.take(v@.len() as int) =~= v@);
    out
}

fn clone_ref(r: &SchemaRef) -> (c: SchemaRef)
    ensures
        c@ == r@,
    decreases r, 0int,
{
    match r {
        SchemaRef::Item(b) => SchemaRef::Item(Box::new(clone_schema(&**b))),
        SchemaRef::Reference(s) => SchemaRef::Reference(s.clone()),
    }
}

/// A copy of `s`.
pub fn clone_schema(s: &DocSchema) -> (r: DocSchema)
    ensures
        r@ == s@,
    decreases s, 0int,
{
    let example = match &s.example {
        Some(e) => Some(clone_json(e)),
        None => None,
    };
    let kind = match &s.kind {
        DocSchemaKind::Str { str_enum, format } => {
            let mut out: Vec<Option<String>> = Vec::new();
            let mut i: usize = 0;
            while i < str_enum.len()
                invariant
                    i <= str_enum@.len(),
                    out@.len() == i,
                    forall|q: int| 0 <= q < i ==> opt_string_view(#[trigger] out@[q]) == opt_string_view(str_enum@[q]),
                decreases str_enum@.len() - i,
            {
                let c = match &str_enum[i] {
                    Some(t) => Some(t.clone()),
                    None => None,
                };
                out.push(c);
                i = i + 1;
            }
            assert(out@.map_values(|o: Option<String>| opt_string_view(o))
                =~= str_enum@.map_values(|o: Option<String>| opt_string_view(o)));
            DocSchemaKind::Str { str_enum: out, format: clone_format(format) }
        },
        DocSchemaKind::Integer { int_enum } => {
            let mut out: Vec<Option<i64>> = Vec::new();
            let mut i: usize = 0;
            while i < int_enum.len()
                invariant
                    i <= int_enum@.len(),
                    out@ == int_enum@.take(i as int),
                decreases int_enum@.len() - i,
            {
                out.push(int_enum[i]);
                assert(out@ =~= int_enum@.take(i + 1));
                i = i + 1;
            }
            assert(int_enum@.take(int_enum@.len() as int) =~= int_enum@);
            DocSchemaKind::Integer { int_enum: out }
        },
        DocSchemaKind::Number { num_enum } => {
            let mut out: Vec<Option<JsonValue>> = Vec::new();
            let mut i: usize = 0;
            while i < num_enum.len()
                invariant
                    i <= num_enum@.len(),
                    out@.len() == i,
                    forall|q: int| 0 <= q < i ==> opt_json_view(#[trigger] out@[q]) == opt_json_view(num_enum@[q]),
                decreases num_enum@.len() - i,
            {
                let c = match &num_enum[i] {
                    Some(t) => Some(clone_json(t)),
                    None => None,
                };
                out.push(c);
                i = i + 1;
            }
            assert(out@.map_values(|o: Option<JsonValue>| opt_json_view(o))
                =~= num_enum@.map_values(|o: Option<JsonValue>| opt_json_view(o)));
            DocSchemaKind::Number { num_enum: out }
        },
        DocSchemaKind::Boolean => DocSchemaKind::Boolean,
        DocSchemaKind::Array { items } => DocSchemaKind::Array {
            items: match items {
                Some(r) => Some(clone_ref(r)),
                None => None,
            },
        },
        DocSchemaKind::Object { properties } => DocSchemaKind::Object { properties: clone_props(properties) },
        DocSchemaKind::AllOf(v) => DocSchemaKind::AllOf(clone_refs(v)),
        DocSchemaKind::OneOf(v) => DocSchemaKind::OneOf(clone_refs(v)),
        DocSchemaKind::AnyOf(v) => DocSchemaKind::AnyOf(clone_refs(v)),
        DocSchemaKind::Not => DocSchemaKind::Not,
        DocSchemaKind::Any => DocSchemaKind::Any,
    };
    DocSchema { example, kind }
}

} // verus!
