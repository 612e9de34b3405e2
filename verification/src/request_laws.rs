//! Laws on what the operations produce from their inputs: which rows a built request
//! carries, how `$ref`s resolve, and which entries a filter keeps.

use vstd::prelude::*;
use crate::client::{RequestDef, pair_insert, pairs_view, find_key, lemma_find_key_bound};
use crate::views::request_builder::{request_of, request_parts, rows_view, RequestBuilderState, FieldRowView, RowKind};
use crate::openapi::{ApiSpec, DocOperation, DocRequestBody, RequestBodyRef, body_of, chosen_media, keyed, Endpoint};
use crate::schema::{SchemaView, SchemaKindView, SchemaRefView, example_of, ref_example, props_example, lookup, last_segment, lemma_last_segment};
use crate::text::{contains, lowercase};
use crate::views::endpoint_list::{EndpointListState, SortMode, matching, sorted, place, sort_key, endpoint_matches, lemma_place_bound, lemma_sorted_members};
use crate::views::history::{HistoryState, recent_matching, entry_matches};
use crate::config::HistoryEntry;

verus! {

// ── What a built request holds ───────────────────────────────────────────────

/// Whether some enabled row of `kind` has the name and value of `p`.
pub open spec fn sent_by_row(p: (Seq<char>, Seq<char>), rows: Seq<FieldRowView>, kind: RowKind) -> bool {
    exists|q: int| 0 <= q < rows.len() && #[trigger] rows[q].kind == kind && rows[q].enabled
        && rows[q].name == p.0 && rows[q].value == p.1
}

proof fn lemma_pair_insert_from(m: Seq<(Seq<char>, Seq<char>)>, k: Seq<char>, v: Seq<char>)
    ensures
        forall|j: int| 0 <= j < pair_insert(m, k, v).len() ==> #[trigger] pair_insert(m, k, v)[j] == (k, v)
            || m.contains(pair_insert(m, k, v)[j]),
{
    let r = pair_insert(m, k, v);
    lemma_find_key_bound(m, k);
    assert forall|j: int| 0 <= j < r.len() implies #[trigger] r[j] == (k, v) || m.contains(r[j]) by {
        if r[j] != (k, v) {
            assert(0 <= j < m.len());
            assert(m[j] == r[j]);
        }
    }
}

proof fn lemma_parts_from_rows(rows: Seq<FieldRowView>)
    ensures
        forall|j: int| 0 <= j < request_parts(rows).path.len() ==> sent_by_row(#[trigger] request_parts(rows).path[j], rows, RowKind::PathParam),
        forall|j: int| 0 <= j < request_parts(rows).query.len() ==> sent_by_row(#[trigger] request_parts(rows).query[j], rows, RowKind::QueryParam)
            && request_parts(rows).query[j].1.len() > 0,
        forall|j: int| 0 <= j < request_parts(rows).headers.len() ==> sent_by_row(#[trigger] request_parts(rows).headers[j], rows, RowKind::Header)
            && request_parts(rows).headers[j].1.len() > 0,
    decreases rows.len(),
{
    if rows.len() > 0 {
        let d = rows.drop_last();
        let acc = request_parts(d);
        let last = rows.last();
        let n = rows.len() - 1;
        lemma_parts_from_rows(d);
        lemma_pair_insert_from(acc.path, last.name, last.value);
        lemma_pair_insert_from(acc.query, last.name, last.value);
        lemma_pair_insert_from(acc.headers, last.name, last.value);
        let p = request_parts(rows);
        assert forall|x: (Seq<char>, Seq<char>), kind: RowKind| sent_by_row(x, d, kind) implies sent_by_row(x, rows, kind) by {
            let q = choose|q: int| 0 <= q < d.len() && #[trigger] d[q].kind == kind && d[q].enabled && d[q].name == x.0 && d[q].value == x.1;
            assert(rows[q] == d[q]);
        }
        assert(rows[n] == last);
        assert forall|j: int| 0 <= j < p.path.len() implies sent_by_row(#[trigger] p.path[j], rows, RowKind::PathParam) by {
            if p.path[j] != acc.path[j] || j >= acc.path.len() {
                if !acc.path.contains(p.path[j]) {
                    assert(rows[n].kind == RowKind::PathParam);
                } else {
                    let w = choose|w: int| 0 <= w < acc.path.len() && acc.path[w] == p.path[j];
                    assert(sent_by_row(acc.path[w], d, RowKind::PathParam));
                }
            } else {
                assert(sent_by_row(acc.path[j], d, RowKind::PathParam));
            }
        }
        assert forall|j: int| 0 <= j < p.query.len() implies sent_by_row(#[trigger] p.query[j], rows, RowKind::QueryParam)
            && p.query[j].1.len() > 0 by {
            if j < acc.query.len() && p.query[j] == acc.query[j] {
                assert(sent_by_row(acc.query[j], d, RowKind::QueryParam));
            } else if !acc.query.contains(p.query[j]) {
                assert(rows[n].kind == RowKind::QueryParam);
            } else {
                let w = choose|w: int| 0 <= w < acc.query.len() && acc.query[w] == p.query[j];
                assert(sent_by_row(acc.query[w], d, RowKind::QueryParam));
            }
        }
        assert forall|j: int| 0 <= j < p.headers.len() implies sent_by_row(#[trigger] p.headers[j], rows, RowKind::Header)
            && p.headers[j].1.len() > 0 by {
            if j < acc.headers.len() && p.headers[j] == acc.headers[j] {
                assert(sent_by_row(acc.headers[j], d, RowKind::Header));
            } else if !acc.headers.contains(p.headers[j]) {
                assert(rows[n].kind == RowKind::Header);
            } else {
                let w = choose|w: int| 0 <= w < acc.headers.len() && acc.headers[w] == p.headers[j];
                assert(sent_by_row(acc.headers[w], d, RowKind::Header));
            }
        }
    }
}

/// Only switched-on rows reach a built request: every path parameter, query
/// parameter and header of the request is the name and value of an enabled row of
/// that kind, and a query parameter or header is never sent with an empty value. So a
/// row left switched off contributes nothing.
pub proof fn law_only_enabled_rows_are_sent(r: RequestDef, s: RequestBuilderState)
    requires
        request_of(r, s),
    ensures
        forall|j: int| #![trigger r.path_params@[j]] 0 <= j < r.path_params@.len() ==> exists|q: int| 0 <= q < s.rows@.len()
            && #[trigger] s.rows@[q].kind == RowKind::PathParam && s.rows@[q].enabled
            && s.rows@[q].name@ == r.path_params@[j].0@ && s.rows@[q].value@ == r.path_params@[j].1@,
        forall|j: int| #![trigger r.query_params@[j]] 0 <= j < r.query_params@.len() ==> r.query_params@[j].1@.len() > 0 && exists|q: int| 0 <= q < s.rows@.len()
            && #[trigger] s.rows@[q].kind == RowKind::QueryParam && s.rows@[q].enabled
            && s.rows@[q].name@ == r.query_params@[j].0@ && s.rows@[q].value@ == r.query_params@[j].1@,
        forall|j: int| #![trigger r.headers@[j]] 0 <= j < r.headers@.len() ==> r.headers@[j].1@.len() > 0 && exists|q: int| 0 <= q < s.rows@.len()
            && #[trigger] s.rows@[q].kind == RowKind::Header && s.rows@[q].enabled
            && s.rows@[q].name@ == r.headers@[j].0@ && s.rows@[q].value@ == r.headers@[j].1@,
{
    let rows = rows_view(s.rows@);
    lemma_parts_from_rows(rows);
    assert(rows.len() == s.rows@.len());
    assert forall|q: int| 0 <= q < s.rows@.len() implies #[trigger] rows[q] == s.rows@[q]@ by {}
    assert forall|j: int| #![trigger r.path_params@[j]] 0 <= j < r.path_params@.len() implies exists|q: int| 0 <= q < s.rows@.len()
        && #[trigger] s.rows@[q].kind == RowKind::PathParam && s.rows@[q].enabled
        && s.rows@[q].name@ == r.path_params@[j].0@ && s.rows@[q].value@ == r.path_params@[j].1@ by {
        assert(pairs_view(r.path_params@)[j] == (r.path_params@[j].0@, r.path_params@[j].1@));
        assert(sent_by_row(request_parts(rows).path[j], rows, RowKind::PathParam));
        let q = choose|q: int| 0 <= q < rows.len() && #[trigger] rows[q].kind == RowKind::PathParam && rows[q].enabled
            && rows[q].name == request_parts(rows).path[j].0 && rows[q].value == request_parts(rows).path[j].1;
        assert(rows[q] == s.rows@[q]@);
    }
    assert forall|j: int| #![trigger r.query_params@[j]] 0 <= j < r.query_params@.len() implies r.query_params@[j].1@.len() > 0 && exists|q: int| 0 <= q < s.rows@.len()
        && #[trigger] s.rows@[q].kind == RowKind::QueryParam && s.rows@[q].enabled
        && s.rows@[q].name@ == r.query_params@[j].0@ && s.rows@[q].value@ == r.query_params@[j].1@ by {
        assert(pairs_view(r.query_params@)[j] == (r.query_params@[j].0@, r.query_params@[j].1@));
        assert(sent_by_row(request_parts(rows).query[j], rows, RowKind::QueryParam));
        let q = choose|q: int| 0 <= q < rows.len() && #[trigger] rows[q].kind == RowKind::QueryParam && rows[q].enabled
            && rows[q].name == request_parts(rows).query[j].0 && rows[q].value == request_parts(rows).query[j].1;
        assert(rows[q] == s.rows@[q]@);
    }
    assert forall|j: int| #![trigger r.headers@[j]] 0 <= j < r.headers@.len() implies r.headers@[j].1@.len() > 0 && exists|q: int| 0 <= q < s.rows@.len()
        && #[trigger] s.rows@[q].kind == RowKind::Header && s.rows@[q].enabled
        && s.rows@[q].name@ == r.headers@[j].0@ && s.rows@[q].value@ == r.headers@[j].1@ by {
        assert(pairs_view(r.headers@)[j] == (r.headers@[j].0@, r.headers@[j].1@));
        assert(sent_by_row(request_parts(rows).headers[j], rows, RowKind::Header));
        let q = choose|q: int| 0 <= q < rows.len() && #[trigger] rows[q].kind == RowKind::Header && rows[q].enabled
            && rows[q].name == request_parts(rows).headers[j].0 && rows[q].value == request_parts(rows).headers[j].1;
        assert(rows[q] == s.rows@[q]@);
    }
}

/// Whether some pair of `ps` is named `k`.
pub open spec fn has_name(ps: Seq<(Seq<char>, Seq<char>)>, k: Seq<char>) -> bool {
    exists|j: int| 0 <= j < ps.len() && #[trigger] ps[j].0 == k
}

proof fn lemma_pair_insert_keeps(m: Seq<(Seq<char>, Seq<char>)>, k: Seq<char>, v: Seq<char>)
    ensures
        has_name(pair_insert(m, k, v), k),
        forall|x: Seq<char>| has_name(m, x) ==> #[trigger] has_name(pair_insert(m, k, v), x),
{
    let r = pair_insert(m, k, v);
    lemma_find_key_bound(m, k);
    match find_key(m, k) {
        Some(i) => {
            assert(r[i].0 == k);
        },
        None => {
            assert(r[m.len() as int].0 == k);
        },
    }
    assert forall|x: Seq<char>| has_name(m, x) implies #[trigger] has_name(r, x) by {
        let j = choose|j: int| 0 <= j < m.len() && #[trigger] m[j].0 == x;
        assert(r[j].0 == x);
    }
}

proof fn lemma_rows_reach_parts(rows: Seq<FieldRowView>)
    ensures
        forall|q: int| 0 <= q < rows.len() && #[trigger] rows[q].kind == RowKind::PathParam && rows[q].enabled
            ==> has_name(request_parts(rows).path, rows[q].name),
        forall|q: int| 0 <= q < rows.len() && #[trigger] rows[q].kind == RowKind::QueryParam && rows[q].enabled
            && rows[q].value.len() > 0 ==> has_name(request_parts(rows).query, rows[q].name),
        forall|q: int| 0 <= q < rows.len() && #[trigger] rows[q].kind == RowKind::Header && rows[q].enabled
            && rows[q].value.len() > 0 ==> has_name(request_parts(rows).headers, rows[q].name),
    decreases rows.len(),
{
    if rows.len() > 0 {
        let d = rows.drop_last();
        let acc = request_parts(d);
        let last = rows.last();
        lemma_rows_reach_parts(d);
        lemma_pair_insert_keeps(acc.path, last.name, last.value);
        lemma_pair_insert_keeps(acc.query, last.name, last.value);
        lemma_pair_insert_keeps(acc.headers, last.name, last.value);
        let p = request_parts(rows);
        assert forall|q: int| 0 <= q < rows.len() && #[trigger] rows[q].kind == RowKind::PathParam && rows[q].enabled
            implies has_name(p.path, rows[q].name) by {
            if q < d.len() {
                assert(d[q] == rows[q]);
                assert(has_name(acc.path, d[q].name));
            }
        }
        assert forall|q: int| 0 <= q < rows.len() && #[trigger] rows[q].kind == RowKind::QueryParam && rows[q].enabled
            && rows[q].value.len() > 0 implies has_name(p.query, rows[q].name) by {
            if q < d.len() {
                assert(d[q] == rows[q]);
                assert(has_name(acc.query, d[q].name));
            }
        }
        assert forall|q: int| 0 <= q < rows.len() && #[trigger] rows[q].kind == RowKind::Header && rows[q].enabled
            && rows[q].value.len() > 0 implies has_name(p.headers, rows[q].name) by {
            if q < d.len() {
                assert(d[q] == rows[q]);
                assert(has_name(acc.headers, d[q].name));
            }
        }
    }
}

/// Every switched-on row reaches a built request: an enabled path parameter, and an
/// enabled query parameter or header with a value, is sent under its name.
pub proof fn law_enabled_rows_are_sent(r: RequestDef, s: RequestBuilderState)
    requires
        request_of(r, s),
    ensures
        forall|q: int| 0 <= q < s.rows@.len() && #[trigger] s.rows@[q].kind == RowKind::PathParam && s.rows@[q].enabled
            ==> exists|j: int| 0 <= j < r.path_params@.len() && #[trigger] r.path_params@[j].0@ == s.rows@[q].name@,
        forall|q: int| 0 <= q < s.rows@.len() && #[trigger] s.rows@[q].kind == RowKind::QueryParam && s.rows@[q].enabled
            && s.rows@[q].value@.len() > 0
            ==> exists|j: int| 0 <= j < r.query_params@.len() && #[trigger] r.query_params@[j].0@ == s.rows@[q].name@,
        forall|q: int| 0 <= q < s.rows@.len() && #[trigger] s.rows@[q].kind == RowKind::Header && s.rows@[q].enabled
            && s.rows@[q].value@.len() > 0
            ==> exists|j: int| 0 <= j < r.headers@.len() && #[trigger] r.headers@[j].0@ == s.rows@[q].name@,
{
    let rows = rows_view(s.rows@);
    lemma_rows_reach_parts(rows);
    assert forall|q: int| 0 <= q < s.rows@.len() && #[trigger] s.rows@[q].kind == RowKind::PathParam && s.rows@[q].enabled
        implies exists|j: int| 0 <= j < r.path_params@.len() && #[trigger] r.path_params@[j].0@ == s.rows@[q].name@ by {
        assert(rows[q] == s.rows@[q]@);
        assert(rows[q].kind == RowKind::PathParam);
        assert(has_name(request_parts(rows).path, rows[q].name));
        let j = choose|j: int| 0 <= j < request_parts(rows).path.len() && #[trigger] request_parts(rows).path[j].0 == rows[q].name;
        assert(pairs_view(r.path_params@).len() == r.path_params@.len());
        assert(pairs_view(r.path_params@)[j] == (r.path_params@[j].0@, r.path_params@[j].1@));
    }
    assert forall|q: int| 0 <= q < s.rows@.len() && #[trigger] s.rows@[q].kind == RowKind::QueryParam && s.rows@[q].enabled
        && s.rows@[q].value@.len() > 0
        implies exists|j: int| 0 <= j < r.query_params@.len() && #[trigger] r.query_params@[j].0@ == s.rows@[q].name@ by {
        assert(rows[q] == s.rows@[q]@);
        assert(rows[q].kind == RowKind::QueryParam);
        assert(has_name(request_parts(rows).query, rows[q].name));
        let j = choose|j: int| 0 <= j < request_parts(rows).query.len() && #[trigger] request_parts(rows).query[j].0 == rows[q].name;
        assert(pairs_view(r.query_params@).len() == r.query_params@.len());
        assert(pairs_view(r.query_params@)[j] == (r.query_params@[j].0@, r.query_params@[j].1@));
    }
    assert forall|q: int| 0 <= q < s.rows@.len() && #[trigger] s.rows@[q].kind == RowKind::Header && s.rows@[q].enabled
        && s.rows@[q].value@.len() > 0
        implies exists|j: int| 0 <= j < r.headers@.len() && #[trigger] r.headers@[j].0@ == s.rows@[q].name@ by {
        assert(rows[q] == s.rows@[q]@);
        assert(rows[q].kind == RowKind::Header);
        assert(has_name(request_parts(rows).headers, rows[q].name));
        let j = choose|j: int| 0 <= j < request_parts(rows).headers.len() && #[trigger] request_parts(rows).headers[j].0 == rows[q].name;
        assert(pairs_view(r.headers@).len() == r.headers@.len());
        assert(pairs_view(r.headers@)[j] == (r.headers@[j].0@, r.headers@[j].1@));
    }
}

// ── `$ref` resolution ───────────────────────────────────────────────────────────

proof fn lemma_ref_last_segment(prefix: Seq<char>, n: Seq<char>)
    requires
        prefix.len() > 0,
        prefix.last() == '/',
        forall|k: int| 0 <= k < n.len() ==> n[k] != '/',
    ensures
        last_segment(prefix + n) == n,
{
    let s = prefix + n;
    let j = prefix.len() as int;
    assert forall|k: int| j <= k < s.len() implies s[k] != '/' by {
        assert(s[k] == n[k - j]);
    }
    assert(s[j - 1] == prefix[j - 1]);
    lemma_last_segment(s, j);
    assert(s.subrange(j, s.len() as int) =~= n);
}

/// A request body given as `$ref: '#/components/requestBodies/N'` reads as the body
/// that the components hold under `N`, written inline: the endpoint gets the same
/// request body (content type, example, description) either way.
pub proof fn law_body_ref_reads_as_inline(op: DocOperation, api: ApiSpec, r: String, n: Seq<char>, b: DocRequestBody)
    requires
        op.request_body == Some(RequestBodyRef::Reference(r)),
        r@ == "#/components/requestBodies/"@ + n,
        forall|k: int| 0 <= k < n.len() ==> n[k] != '/',
        api.components matches Some(c) && lookup(keyed(c.request_bodies@), n) == Some(RequestBodyRef::Item(b)),
    ensures
        body_of(op, api) == body_of(DocOperation { request_body: Some(RequestBodyRef::Item(b)), ..op }, api),
        body_of(op, api) is Some <==> chosen_media(b) is Some,
{
    reveal_strlit("#/components/requestBodies/");
    lemma_ref_last_segment("#/components/requestBodies/"@, n);
}

/// An object property given as `$ref: '#/components/schemas/N'` has the example of
/// the schema that the components hold under `N`, as if that schema were written in
/// place of the reference.
pub proof fn law_property_ref_reads_as_inline(
    props: Seq<(Seq<char>, SchemaRefView)>,
    i: int,
    n: Seq<char>,
    s: SchemaView,
    comps: Seq<(Seq<char>, SchemaRefView)>,
    depth: nat,
)
    requires
        0 <= i < props.len(),
        props[i].1 == SchemaRefView::Reference("#/components/schemas/"@ + n),
        forall|k: int| 0 <= k < n.len() ==> n[k] != '/',
        lookup(comps, n) == Some(SchemaRefView::Item(Box::new(s))),
    ensures
        example_of(SchemaView { example: None, kind: SchemaKindView::Object { properties: props } }, comps, depth)
            == example_of(
                SchemaView {
                    example: None,
                    kind: SchemaKindView::Object { properties: props.update(i, (props[i].0, SchemaRefView::Item(Box::new(s)))) },
                },
                comps,
                depth,
            ),
{
    reveal_strlit("#/components/schemas/");
    lemma_ref_last_segment("#/components/schemas/"@, n);
    let q = props.update(i, (props[i].0, SchemaRefView::Item(Box::new(s))));
    if depth <= 8 {
        lemma_props_same(props, q, comps, depth + 1);
    }
}

proof fn lemma_props_same(
    p: Seq<(Seq<char>, SchemaRefView)>,
    q: Seq<(Seq<char>, SchemaRefView)>,
    comps: Seq<(Seq<char>, SchemaRefView)>,
    depth: nat,
)
    requires
        p.len() == q.len(),
        forall|j: int| 0 <= j < p.len() ==> #[trigger] p[j].0 == q[j].0
            && ref_example(p[j].1, comps, depth) == ref_example(q[j].1, comps, depth),
    ensures
        props_example(p, comps, depth) == props_example(q, comps, depth),
    decreases p.len(),
{
    if p.len() > 0 {
        let (pd, qd) = (p.drop_last(), q.drop_last());
        assert forall|j: int| 0 <= j < pd.len() implies #[trigger] pd[j].0 == qd[j].0
            && ref_example(pd[j].1, comps, depth) == ref_example(qd[j].1, comps, depth) by {
            assert(pd[j] == p[j] && qd[j] == q[j]);
        }
        lemma_props_same(pd, qd, comps, depth);
        assert(p[p.len() - 1].0 == q[q.len() - 1].0);
    }
}

proof fn lemma_lookup_found<T>(entries: Seq<(Seq<char>, T)>, key: Seq<char>, j: int)
    requires
        0 <= j < entries.len(),
        entries[j].0 == key,
    ensures
        lookup(entries, key) is Some,
    decreases entries.len(),
{
    if entries[0].0 != key {
        assert(entries.drop_first()[j - 1] == entries[j]);
        lemma_lookup_found(entries.drop_first(), key, j - 1);
    }
}

/// A request body offering `application/json` among its media types is shown as
/// `application/json`, wherever that entry stands.
pub proof fn law_json_media_preferred(op: DocOperation, api: ApiSpec, b: DocRequestBody, j: int)
    requires
        op.request_body == Some(RequestBodyRef::Item(b)),
        0 <= j < b.content@.len(),
        b.content@[j].0@ == "application/json"@,
    ensures
        body_of(op, api) matches Some(rb) && rb.content_type == "application/json"@,
{
    let kv = keyed(b.content@);
    assert(kv[j].0 == "application/json"@);
    lemma_lookup_found(kv, "application/json"@, j);
}

// ── Filters ───────────────────────────────────────────────────────────────────

proof fn lemma_matching_has(eps: Seq<Endpoint>, q: Seq<char>, i: int)
    requires
        0 <= i < eps.len(),
        endpoint_matches(eps[i], q),
    ensures
        matching(eps, q).contains(i),
    decreases eps.len(),
{
    let d = eps.drop_last();
    let a = matching(d, q);
    if i == eps.len() - 1 {
        let m = matching(eps, q);
        assert(m == a + seq![eps.len() - 1]);
        assert(m[a.len() as int] == i);
    } else {
        assert(d[i] == eps[i]);
        lemma_matching_has(d, q, i);
        let w = choose|w: int| 0 <= w < a.len() && a[w] == i;
        let m = matching(eps, q);
        assert(m[w] == a[w]);
    }
}

proof fn lemma_sorted_has(s: Seq<int>, eps: Seq<Endpoint>, mode: SortMode, x: int)
    requires
        s.contains(x),
    ensures
        sorted(s, eps, mode).contains(x),
    decreases s.len(),
{
    let r = sorted(s.drop_last(), eps, mode);
    let p = place(r, sort_key(eps[s.last()], mode), eps, mode) as int;
    lemma_place_bound(r, sort_key(eps[s.last()], mode), eps, mode);
    let t = sorted(s, eps, mode);
    assert(t == r.insert(p, s.last()));
    if s.last() == x {
        assert(t[p] == x);
    } else {
        let w = choose|w: int| 0 <= w < s.len() && s[w] == x;
        assert(s.drop_last()[w] == x);
        lemma_sorted_has(s.drop_last(), eps, mode, x);
        let v = choose|v: int| 0 <= v < r.len() && r[v] == x;
        if v < p {
            assert(t[v] == x);
        } else {
            assert(t[v + 1] == x);
        }
    }
}

/// The endpoint list keeps every endpoint whose path, method, summary or one of whose
/// tags, lower-cased, contains the lower-cased filter, whatever the sort order.
pub proof fn law_filter_keeps_matching_endpoints(el: EndpointListState, i: int)
    requires
        0 <= i < el.endpoints@.len(),
        ({
            let e = el.endpoints@[i];
            let q = lowercase(el.filter@);
            ||| contains(lowercase(e.path@), q)
            ||| contains(lowercase(e.method@), q)
            ||| contains(lowercase(e.summary@), q)
            ||| exists|t: int| 0 <= t < e.tags@.len() && contains(lowercase(#[trigger] e.tags@[t]@), q)
        }),
    ensures
        el.shown().contains(i),
{
    let q = lowercase(el.filter@);
    lemma_matching_has(el.endpoints@, q, i);
    if el.sort_mode != SortMode::Unsorted {
        lemma_sorted_has(matching(el.endpoints@, q), el.endpoints@, el.sort_mode, i);
    }
}

proof fn lemma_recent_has(es: Seq<HistoryEntry>, q: Seq<char>, i: int)
    requires
        0 <= i < es.len(),
        entry_matches(es[i], q),
    ensures
        recent_matching(es, q).contains(i),
    decreases es.len(),
{
    let d = es.drop_last();
    let rest = recent_matching(d, q);
    let m = recent_matching(es, q);
    if i == es.len() - 1 {
        assert(m[0] == i);
    } else {
        assert(d[i] == es[i]);
        lemma_recent_has(d, q, i);
        let w = choose|w: int| 0 <= w < rest.len() && rest[w] == i;
        let h = m.len() - rest.len();
        assert(m[w + h] == rest[w]);
    }
}

/// The history keeps every entry whose path, method or server name, lower-cased,
/// contains the lower-cased filter.
pub proof fn law_filter_keeps_matching_history(h: HistoryState, i: int)
    requires
        0 <= i < h.entries@.len(),
        ({
            let e = h.entries@[i];
            let q = lowercase(h.filter@);
            ||| contains(lowercase(e.path@), q)
            ||| contains(lowercase(e.method@), q)
            ||| contains(lowercase(e.server_name@), q)
        }),
    ensures
        h.shown().contains(i),
{
    lemma_recent_has(h.entries@, lowercase(h.filter@), i);
}

proof fn lemma_matching_only(eps: Seq<Endpoint>, q: Seq<char>)
    ensures
        forall|k: int| 0 <= k < matching(eps, q).len() ==> 0 <= #[trigger] matching(eps, q)[k] < eps.len()
            && endpoint_matches(eps[matching(eps, q)[k]], q),
    decreases eps.len(),
{
    if eps.len() > 0 {
        let d = eps.drop_last();
        let a = matching(d, q);
        lemma_matching_only(d, q);
        let m = matching(eps, q);
        assert forall|k: int| 0 <= k < m.len() implies 0 <= #[trigger] m[k] < eps.len() && endpoint_matches(eps[m[k]], q) by {
            if k < a.len() {
                assert(m[k] == a[k]);
                assert(d[a[k]] == eps[a[k]]);
            }
        }
    }
}

/// The endpoint list shows nothing that fails the filter: with a non-empty filter,
/// each endpoint shown has a path, method, summary or tag that, lower-cased, contains
/// the lower-cased filter.
pub proof fn law_filter_shows_only_matching_endpoints(el: EndpointListState)
    ensures
        forall|k: int| 0 <= k < el.shown().len() ==> {
            let e = el.endpoints@[#[trigger] el.shown()[k]];
            let q = lowercase(el.filter@);
            &&& 0 <= el.shown()[k] < el.endpoints@.len()
            &&& {
                ||| q.len() == 0
                ||| contains(lowercase(e.path@), q)
                ||| contains(lowercase(e.method@), q)
                ||| contains(lowercase(e.summary@), q)
                ||| exists|t: int| 0 <= t < e.tags@.len() && contains(lowercase(#[trigger] e.tags@[t]@), q)
            }
        },
{
    let q = lowercase(el.filter@);
    let eps = el.endpoints@;
    let m = matching(eps, q);
    lemma_matching_only(eps, q);
    if el.sort_mode != SortMode::Unsorted {
        lemma_sorted_members(m, eps, el.sort_mode);
        assert forall|k: int| 0 <= k < el.shown().len() implies 0 <= #[trigger] el.shown()[k] < eps.len()
            && endpoint_matches(eps[el.shown()[k]], q) by {
            let x = el.shown()[k];
            assert(m.contains(x));
            let w = choose|w: int| 0 <= w < m.len() && m[w] == x;
            assert(m[w] == x);
        }
    }
}

proof fn lemma_recent_only(es: Seq<HistoryEntry>, q: Seq<char>)
    ensures
        forall|k: int| 0 <= k < recent_matching(es, q).len() ==> 0 <= #[trigger] recent_matching(es, q)[k] < es.len()
            && entry_matches(es[recent_matching(es, q)[k]], q),
    decreases es.len(),
{
    if es.len() > 0 {
        let d = es.drop_last();
        let rest = recent_matching(d, q);
        lemma_recent_only(d, q);
        let m = recent_matching(es, q);
        let h = m.len() - rest.len();
        assert forall|k: int| 0 <= k < m.len() implies 0 <= #[trigger] m[k] < es.len() && entry_matches(es[m[k]], q) by {
            if k >= h {
                assert(m[k] == rest[k - h]);
                assert(d[rest[k - h]] == es[rest[k - h]]);
            }
        }
    }
}

/// The history shows nothing that fails the filter: with a non-empty filter, each
/// entry shown has a path, method or server name that, lower-cased, contains the
/// lower-cased filter.
pub proof fn law_filter_shows_only_matching_history(h: HistoryState)
    ensures
        forall|k: int| 0 <= k < h.shown().len() ==> {
            let e = h.entries@[#[trigger] h.shown()[k]];
            let q = lowercase(h.filter@);
            &&& 0 <= h.shown()[k] < h.entries@.len()
            &&& {
                ||| q.len() == 0
                ||| contains(lowercase(e.path@), q)
                ||| contains(lowercase(e.method@), q)
                ||| contains(lowercase(e.server_name@), q)
            }
        },
{
    lemma_recent_only(h.entries@, lowercase(h.filter@));
}

} // verus!
