//! The detail pane of the endpoint list and of the history.

use vstd::prelude::*;
use crate::config::HistoryEntry;
use crate::json::{compact, pretty, nat_text, nat_to_text, push_str, push_str_chars, to_compact_string, to_pretty_string, seq_lt, chars_lt};
use crate::openapi::{Endpoint, ResolvedParam, ResolvedBody, strings_view};
use crate::schema::str_is;
use crate::text::{chars_of, string_of, lines_of, lines_exec};
use crate::theme::{Theme, parse_num, parse_num_exec};
use crate::ui::{
    Style, Span, Line, lines_view, blank, blank_line, plain, fg, bold_fg, span_str, span_chars, line1, line2,
    line3,
};

verus! {

/// The texts of `ss` with `sep` between them.
pub open spec fn joined_with(ss: Seq<Seq<char>>, sep: Seq<char>) -> Seq<char>
    decreases ss.len(),
{
    if ss.len() == 0 {
        Seq::empty()
    } else if ss.len() == 1 {
        ss[0]
    } else {
        joined_with(ss.drop_last(), sep) + sep + ss.last()
    }
}

fn join_strings(ss: &Vec<String>, sep: &str) -> (r: Vec<char>)
    ensures
        r@ == joined_with(strings_view(ss@), sep@),
{
    let ghost v = strings_view(ss@);
    let mut out: Vec<char> = Vec::new();
    let mut i: usize = 0;
    while i < ss.len()
        invariant
            i <= ss@.len(),
            v == strings_view(ss@),
            out@ == joined_with(v.take(i as int), sep@),
        decreases ss@.len() - i,
    {
        if i > 0 {
            push_str(&mut out, sep);
        }
        push_str(&mut out, ss[i].as_str());
        assert(v.take(i + 1).drop_last() =~= v.take(i as int));
        assert(v.take(i + 1).last() == ss@[i as int]@);
        if i == 0 {
            assert(v.take(0) =~= Seq::<Seq<char>>::empty());
        }
        assert(out@ =~= joined_with(v.take(i + 1), sep@));
        i = i + 1;
    }
    assert(v.take(v.len() as int) =~= v);
    out
}

/// A section heading.
pub open spec fn divider(title: Seq<char>, t: Theme) -> Seq<(Seq<char>, Style)> {
    seq![("── "@ + title + " "@, bold_fg(t.title))]
}

/// The heading line of a section of the detail pane.
pub fn section_divider(title: &str, t: &Theme) -> (l: Line)
    ensures
        l@ == divider(title@, *t),
{
    let mut text: Vec<char> = Vec::new();
    push_str(&mut text, "── ");
    push_str(&mut text, title);
    push_str(&mut text, " ");
    line1(span_chars(&text, Style::bold_fg(t.title)))
}

/// The lines describing one parameter: a blank line; the required marker, name,
/// location and type; the description if any; the example unless it is empty text or
/// null.
pub open spec fn param_lines(p: ResolvedParam, t: Theme) -> Seq<Seq<(Seq<char>, Style)>> {
    let ex = compact(p.example@);
    seq![
        blank(),
        seq![
            (if p.required { "* "@ } else { "  "@ }, fg(if p.required { t.param_required } else { t.text_secondary })),
            (p.name@, bold_fg(t.text_primary)),
            ("  "@, plain()),
            ("["@ + p.location@ + "]"@, fg(t.param_location)),
            ("  "@, plain()),
            (p.schema_type@, fg(t.param_type)),
        ],
    ] + (if p.description@.len() > 0 {
        seq![seq![("  "@, plain()), (p.description@, fg(t.text_secondary))]]
    } else {
        Seq::empty()
    }) + (if ex.len() > 0 && ex != "\"\""@ && ex != "null"@ {
        seq![seq![("  example  "@, fg(t.text_secondary)), (ex, fg(t.param_example))]]
    } else {
        Seq::empty()
    })
}

/// The lines of every parameter in order.
pub open spec fn params_lines(ps: Seq<ResolvedParam>, t: Theme) -> Seq<Seq<(Seq<char>, Style)>>
    decreases ps.len(),
{
    if ps.len() == 0 {
        Seq::empty()
    } else {
        params_lines(ps.drop_last(), t) + param_lines(ps.last(), t)
    }
}

/// The status a response key stands for (0 when it is not a number, as for `2XX`).
pub open spec fn code_status(code: Seq<char>) -> int {
    match parse_num(code, 10, 65535) {
        Some(v) => v as int,
        None => 0,
    }
}

/// The response codes, each bold in the colour of its status, two spaces apart.
pub open spec fn response_spans(codes: Seq<Seq<char>>, t: Theme) -> Seq<(Seq<char>, Style)>
    decreases codes.len(),
{
    if codes.len() == 0 {
        Seq::empty()
    } else if codes.len() == 1 {
        seq![(codes[0], bold_fg(t.status_color_of(code_status(codes[0]))))]
    } else {
        seq![(codes[0], bold_fg(t.status_color_of(code_status(codes[0])))), ("  "@, plain())] + response_spans(
            codes.drop_first(),
            t,
        )
    }
}

/// The lines describing a request body.
pub open spec fn body_lines(b: ResolvedBody, t: Theme) -> Seq<Seq<(Seq<char>, Style)>> {
    seq![
        blank(),
        divider("Request Body"@, t),
        blank(),
        seq![("Content-Type  "@, fg(t.text_secondary)), (b.content_type@, fg(t.text_accent))],
    ] + (if b.description@.len() > 0 {
        seq![seq![("Description   "@, fg(t.text_secondary)), (b.description@, fg(t.text_primary))]]
    } else {
        Seq::empty()
    }) + seq![blank(), seq![("Schema example:"@, fg(t.text_secondary))]] + lines_of(pretty(b.example@)).map_values(
        |l: Seq<char>| seq![(l, fg(t.md_code))],
    )
}

/// The first lines of the detail pane: method and path, then a blank line.
pub open spec fn head_lines(ep: Endpoint, t: Theme) -> Seq<Seq<(Seq<char>, Style)>> {
    seq![
        seq![(ep.method@, bold_fg(t.method_color_of(ep.method@))), ("  "@, plain()), (ep.path@, bold_fg(t.text_primary))],
        blank(),
    ]
}

/// Summary, operation id and tags, each when present.
pub open spec fn info_lines(ep: Endpoint, t: Theme) -> Seq<Seq<(Seq<char>, Style)>> {
    (if ep.summary@.len() > 0 {
        seq![seq![("Summary  "@, fg(t.text_secondary)), (ep.summary@, fg(t.text_primary))]]
    } else {
        Seq::empty()
    }) + (match ep.operation_id {
        Some(o) => seq![blank(), seq![("Operation "@, fg(t.text_secondary)), (o@, fg(t.text_accent))]],
        None => Seq::empty(),
    }) + (if ep.tags@.len() > 0 {
        seq![seq![("Tags     "@, fg(t.text_secondary)), (joined_with(strings_view(ep.tags@), ", "@), fg(t.text_tag))]]
    } else {
        Seq::empty()
    })
}

/// The parameters section, when there are parameters.
pub open spec fn params_section(ep: Endpoint, t: Theme) -> Seq<Seq<(Seq<char>, Style)>> {
    if ep.parameters@.len() > 0 {
        seq![blank(), divider("Parameters"@, t)] + params_lines(ep.parameters@, t)
    } else {
        Seq::empty()
    }
}

/// The request body section, when there is a body.
pub open spec fn body_section(ep: Endpoint, t: Theme) -> Seq<Seq<(Seq<char>, Style)>> {
    match ep.request_body {
        Some(b) => body_lines(b, t),
        None => Seq::empty(),
    }
}

/// The responses section, when there are responses.
pub open spec fn responses_section(ep: Endpoint, t: Theme) -> Seq<Seq<(Seq<char>, Style)>> {
    if ep.responses@.len() > 0 {
        seq![blank(), divider("Responses"@, t), blank(), response_spans(strings_view(ep.responses@), t)]
    } else {
        Seq::empty()
    }
}

/// The detail pane of an endpoint: method and path; summary; operation id; tags;
/// a section per parameter; the request body with its content type, description and
/// indented example; the response codes; a closing blank line.
pub open spec fn detail_lines(ep: Endpoint, t: Theme) -> Seq<Seq<(Seq<char>, Style)>> {
    head_lines(ep, t) + info_lines(ep, t) + params_section(ep, t) + body_section(ep, t) + responses_section(ep, t)
        + seq![blank()]
}

fn push_param_lines(out: &mut Vec<Line>, p: &ResolvedParam, t: &Theme)
    ensures
        lines_view(final(out)@) == lines_view(old(out)@) + param_lines(*p, *t),
{
    let ghost start = lines_view(out@);
    out.push(blank_line());
    let marker = if p.required { span_str("* ", Style::fg(t.param_required)) } else { span_str("  ", Style::fg(t.text_secondary)) };
    let mut loc: Vec<char> = Vec::new();
    push_str(&mut loc, "[");
    push_str(&mut loc, p.location.as_str());
    push_str(&mut loc, "]");
    let mut spans: Vec<Span> = Vec::new();
    spans.push(marker);
    spans.push(span_str(p.name.as_str(), Style::bold_fg(t.text_primary)));
    spans.push(span_str("  ", Style::plain()));
    spans.push(span_chars(&loc, Style::fg(t.param_location)));
    spans.push(span_str("  ", Style::plain()));
    spans.push(span_str(p.schema_type.as_str(), Style::fg(t.param_type)));
    let main = Line { spans };
    assert(main@ =~= param_lines(*p, *t)[1]);
    out.push(main);
    let ghost mid = lines_view(out@);
    assert(mid =~= start + seq![blank(), param_lines(*p, *t)[1]]);
    if chars_of(p.description.as_str()).len() > 0 {
        out.push(line2(span_str("  ", Style::plain()), span_str(p.description.as_str(), Style::fg(t.text_secondary))));
    }
    let ghost mid2 = lines_view(out@);
    let ex = chars_of(to_compact_string(&p.example).as_str());
    proof {
        reveal_strlit("\"\"");
        reveal_strlit("null");
    }
    let quoted_empty = chars_of("\"\"");
    let null = chars_of("null");
    if ex.len() > 0 && !crate::json::chars_eq(&ex, &quoted_empty) && !crate::json::chars_eq(&ex, &null) {
        out.push(line2(span_str("  example  ", Style::fg(t.text_secondary)), span_chars(&ex, Style::fg(t.param_example))));
    }
    assert(lines_view(out@) =~= lines_view(old(out)@) + param_lines(*p, *t));
}

fn push_body_lines(out: &mut Vec<Line>, b: &ResolvedBody, t: &Theme)
    ensures
        lines_view(final(out)@) == lines_view(old(out)@) + body_lines(*b, *t),
{
    out.push(blank_line());
    out.push(section_divider("Request Body", t));
    out.push(blank_line());
    out.push(line2(span_str("Content-Type  ", Style::fg(t.text_secondary)), span_str(b.content_type.as_str(), Style::fg(t.text_accent))));
    if chars_of(b.description.as_str()).len() > 0 {
        out.push(line2(span_str("Description   ", Style::fg(t.text_secondary)), span_str(b.description.as_str(), Style::fg(t.text_primary))));
    }
    out.push(blank_line());
    out.push(line1(span_str("Schema example:", Style::fg(t.text_secondary))));
    let ghost head = lines_view(out@);
    let text = to_pretty_string(&b.example);
    let ls = lines_exec(text.as_str());
    let ghost lv = ls@.map_values(|l: Vec<char>| l@);
    let mut i: usize = 0;
    while i < ls.len()
        invariant
            i <= ls@.len(),
            lv == ls@.map_values(|l: Vec<char>| l@),
            lines_view(out@) == head + lv.take(i as int).map_values(|l: Seq<char>| seq![(l, fg(t.md_code))]),
        decreases ls@.len() - i,
    {
        let ghost before = lines_view(out@);
        out.push(line1(span_chars(&ls[i], Style::fg(t.md_code))));
        assert(lv.take(i + 1) =~= lv.take(i as int).push(lv[i as int]));
        assert(lines_view(out@) =~= before.push(seq![(lv[i as int], fg(t.md_code))]));
        assert(lines_view(out@) =~= head + lv.take(i + 1).map_values(|l: Seq<char>| seq![(l, fg(t.md_code))]));
        i = i + 1;
    }
    assert(lv.take(lv.len() as int) =~= lv);
    assert(lines_view(out@) =~= lines_view(old(out)@) + body_lines(*b, *t));
}

fn response_line(codes: &Vec<String>, t: &Theme) -> (l: Line)
    ensures
        l@ == response_spans(strings_view(codes@), *t),
{
    let ghost cs = strings_view(codes@);
    let mut spans: Vec<Span> = Vec::new();
    let mut i: usize = 0;
    assert(cs.skip(0) =~= cs);
    while i < codes.len()
        invariant
            i <= codes@.len(),
            cs == strings_view(codes@),
            spans@.map_values(|s: Span| s@) + response_spans(cs.skip(i as int), *t) == response_spans(cs, *t),
        decreases codes@.len() - i,
    {
        let ghost before = spans@.map_values(|s: Span| s@);
        let ghost rest = cs.skip(i as int);
        assert(rest[0] == codes@[i as int]@);
        assert(rest.drop_first() =~= cs.skip(i + 1));
        let digits = chars_of(codes[i].as_str());
        let status: u32 = match parse_num_exec(digits.as_slice(), 10, 65535) {
            Some(v) => v,
            None => 0,
        };
        let color = t.status_color(status as u16);
        spans.push(span_str(codes[i].as_str(), Style::bold_fg(color)));
        if i + 1 < codes.len() {
            spans.push(span_str("  ", Style::plain()));
            assert(spans@.map_values(|s: Span| s@) =~= before + seq![
                (rest[0], bold_fg(t.status_color_of(code_status(rest[0])))),
                ("  "@, plain()),
            ]);
        } else {
            assert(cs.skip(i + 1) =~= Seq::<Seq<char>>::empty());
            assert(spans@.map_values(|s: Span| s@) =~= before + seq![(rest[0], bold_fg(t.status_color_of(code_status(rest[0]))))]);
        }
        i = i + 1;
    }
    assert(cs.skip(i as int) =~= Seq::<Seq<char>>::empty());
    let l = Line { spans };
    assert(l@ =~= response_spans(cs, *t));
    l
}

/// The detail pane of an endpoint (see [`detail_lines`]).
pub fn build_detail_lines(ep: &Endpoint, t: &Theme) -> (r: Vec<Line>)
    ensures
        lines_view(r@) == detail_lines(*ep, *t),
{
    let mut out: Vec<Line> = Vec::new();
    out.push(line3(
        span_str(ep.method.as_str(), Style::bold_fg(t.method_color(ep.method.as_str()))),
        span_str("  ", Style::plain()),
        span_str(ep.path.as_str(), Style::bold_fg(t.text_primary)),
    ));
    out.push(blank_line());
    assert(lines_view(out@) =~= head_lines(*ep, *t));
    if chars_of(ep.summary.as_str()).len() > 0 {
        out.push(line2(span_str("Summary  ", Style::fg(t.text_secondary)), span_str(ep.summary.as_str(), Style::fg(t.text_primary))));
    }
    if let Some(op_id) = &ep.operation_id {
        out.push(blank_line());
        out.push(line2(span_str("Operation ", Style::fg(t.text_secondary)), span_str(op_id.as_str(), Style::fg(t.text_accent))));
    }
    if ep.tags.len() > 0 {
        let tags = join_strings(&ep.tags, ", ");
        out.push(line2(span_str("Tags     ", Style::fg(t.text_secondary)), span_chars(&tags, Style::fg(t.text_tag))));
    }
    let ghost before_params = lines_view(out@);
    assert(before_params =~= head_lines(*ep, *t) + info_lines(*ep, *t));
    if ep.parameters.len() > 0 {
        out.push(blank_line());
        out.push(section_divider("Parameters", t));
        let ghost head = lines_view(out@);
        let mut i: usize = 0;
        while i < ep.parameters.len()
            invariant
                i <= ep.parameters@.len(),
                lines_view(out@) == head + params_lines(ep.parameters@.take(i as int), *t),
            decreases ep.parameters@.len() - i,
        {
            push_param_lines(&mut out, &ep.parameters[i], t);
            assert(ep.parameters@.take(i + 1).drop_last() =~= ep.parameters@.take(i as int));
            assert(ep.parameters@.take(i + 1).last() == ep.parameters@[i as int]);
            assert(lines_view(out@) =~= head + params_lines(ep.parameters@.take(i + 1), *t));
            i = i + 1;
        }
        assert(ep.parameters@.take(ep.parameters@.len() as int) =~= ep.parameters@);
    }
    let ghost before_body = lines_view(out@);
    assert(before_body =~= before_params + params_section(*ep, *t));
    if let Some(b) = &ep.request_body {
        push_body_lines(&mut out, b, t);
    }
    let ghost before_resp = lines_view(out@);
    assert(before_resp =~= before_body + body_section(*ep, *t));
    if ep.responses.len() > 0 {
        out.push(blank_line());
        out.push(section_divider("Responses", t));
        out.push(blank_line());
        out.push(response_line(&ep.responses, t));
    }
    assert(lines_view(out@) =~= before_resp + responses_section(*ep, *t));
    out.push(blank_line());
    assert(lines_view(out@) =~= detail_lines(*ep, *t));
    out
}

// ── History detail ───────────────────────────────────────────────────────────

/// Bold text in the default colour.
pub open spec fn bold() -> Style {
    Style { bold: true, ..plain() }
}

/// Number of leading pairs of `s` whose key does not order after `k`.
pub open spec fn pair_place(s: Seq<(String, String)>, k: Seq<char>) -> nat
    decreases s.len(),
{
    if s.len() == 0 {
        0
    } else if seq_lt(k, s[0].0@) {
        0
    } else {
        1 + pair_place(s.drop_first(), k)
    }
}

/// The pairs stably sorted by key.
pub open spec fn sorted_pairs(s: Seq<(String, String)>) -> Seq<(String, String)>
    decreases s.len(),
{
    if s.len() == 0 {
        Seq::empty()
    } else {
        let r = sorted_pairs(s.drop_last());
        r.insert(pair_place(r, s.last().0@) as int, s.last())
    }
}

proof fn lemma_pair_place_bound(s: Seq<(String, String)>, k: Seq<char>)
    ensures
        pair_place(s, k) <= s.len(),
    decreases s.len(),
{
    if s.len() > 0 {
        lemma_pair_place_bound(s.drop_first(), k);
    }
}

fn sort_pairs(ps: &Vec<(String, String)>) -> (r: Vec<(String, String)>)
    ensures
        r@ == sorted_pairs(ps@),
{
    let mut r: Vec<(String, String)> = Vec::new();
    let mut i: usize = 0;
    while i < ps.len()
        invariant
            i <= ps@.len(),
            r@ == sorted_pairs(ps@.take(i as int)),
        decreases ps@.len() - i,
    {
        let ghost rv = r@;
        let k = chars_of(ps[i].0.as_str());
        let mut p: usize = 0;
        assert(rv.skip(0) =~= rv);
        while p < r.len() && !chars_lt(&k, &chars_of(r[p].0.as_str()))
            invariant
                p <= r@.len(),
                rv == r@,
                k@ == ps@[i as int].0@,
                pair_place(rv, k@) == p + pair_place(rv.skip(p as int), k@),
            decreases r@.len() - p,
        {
            assert(rv.skip(p as int)[0] == rv[p as int]);
            assert(rv.skip(p as int).drop_first() =~= rv.skip(p + 1));
            p = p + 1;
        }
        if p < r.len() {
            assert(rv.skip(p as int)[0] == rv[p as int]);
        }
        assert(pair_place(rv, k@) == p);
        assert(ps@.take(i + 1).drop_last() =~= ps@.take(i as int));
        assert(ps@.take(i + 1).last() == ps@[i as int]);
        let item = (ps[i].0.clone(), ps[i].1.clone());
        r.insert(p, item);
        i = i + 1;
    }
    assert(ps@.take(ps@.len() as int) =~= ps@);
    r
}

/// A line per parameter: the key with a colon, then the value.
pub open spec fn pair_lines(ps: Seq<(String, String)>, t: Theme) -> Seq<Seq<(Seq<char>, Style)>> {
    ps.map_values(|p: (String, String)| seq![("  "@ + p.0@ + ": "@, fg(t.text_key)), (p.1@, plain())])
}

/// The detail pane of a history entry: method and path; server, URL, status,
/// elapsed time and timestamp; the parameters sorted by name, when there are any;
/// the key help.
pub open spec fn history_lines(e: HistoryEntry, t: Theme) -> Seq<Seq<(Seq<char>, Style)>> {
    history_head(e, t) + history_params(e, t) + seq![
        blank(),
        seq![("Enter = re-open endpoint  d = delete  Esc = back"@, fg(t.text_secondary))],
    ]
}

/// The first lines of a history entry's detail.
pub open spec fn history_head(e: HistoryEntry, t: Theme) -> Seq<Seq<(Seq<char>, Style)>> {
    seq![
        seq![(e.method@, bold_fg(t.method_color_of(e.method@))), ("  "@, plain()), (e.path@, bold_fg(t.text_primary))],
        blank(),
        seq![("Server:    "@, bold()), (e.server_name@, plain())],
        seq![("URL:       "@, bold()), (e.url@, fg(t.text_url))],
        seq![("Status:    "@, bold()), (nat_text(e.status as nat), fg(t.status_color_of(e.status as int)))],
        seq![("Elapsed:   "@, bold()), (nat_text(e.elapsed_ms as nat) + "ms"@, plain())],
        seq![("Timestamp: "@, bold()), (e.timestamp@, fg(t.text_secondary))],
    ]
}

/// The parameters of a history entry's detail, when there are any.
pub open spec fn history_params(e: HistoryEntry, t: Theme) -> Seq<Seq<(Seq<char>, Style)>> {
    if e.params@.len() > 0 {
        seq![blank(), seq![("── Parameters "@, bold_fg(t.title))]] + pair_lines(sorted_pairs(e.params@), t)
    } else {
        Seq::empty()
    }
}

/// The detail pane of a history entry (see [`history_lines`]).
pub fn build_detail(e: &HistoryEntry, t: &Theme) -> (r: Vec<Line>)
    ensures
        lines_view(r@) == history_lines(*e, *t),
{
    let bold_style = Style { fg: None, bg: None, bold: true, italic: false, dim: false };
    let mut out: Vec<Line> = Vec::new();
    out.push(line3(
        span_str(e.method.as_str(), Style::bold_fg(t.method_color(e.method.as_str()))),
        span_str("  ", Style::plain()),
        span_str(e.path.as_str(), Style::bold_fg(t.text_primary)),
    ));
    out.push(blank_line());
    out.push(line2(span_str("Server:    ", bold_style), span_str(e.server_name.as_str(), Style::plain())));
    out.push(line2(span_str("URL:       ", bold_style), span_str(e.url.as_str(), Style::fg(t.text_url))));
    let status = nat_to_text(e.status as u128);
    out.push(line2(span_str("Status:    ", bold_style), span_str(status.as_str(), Style::fg(t.status_color(e.status)))));
    let mut ms: Vec<char> = Vec::new();
    push_str(&mut ms, nat_to_text(e.elapsed_ms).as_str());
    push_str(&mut ms, "ms");
    out.push(line2(span_str("Elapsed:   ", bold_style), span_chars(&ms, Style::plain())));
    out.push(line2(span_str("Timestamp: ", bold_style), span_str(e.timestamp.as_str(), Style::fg(t.text_secondary))));
    let ghost head = lines_view(out@);
    assert(head =~= history_head(*e, *t));
    if e.params.len() > 0 {
        out.push(blank_line());
        out.push(line1(span_str("── Parameters ", Style::bold_fg(t.title))));
        let ghost top = lines_view(out@);
        let ps = sort_pairs(&e.params);
        let mut i: usize = 0;
        while i < ps.len()
            invariant
                i <= ps@.len(),
                lines_view(out@) == top + pair_lines(ps@.take(i as int), *t),
            decreases ps@.len() - i,
        {
            let ghost before = lines_view(out@);
            let mut key: Vec<char> = Vec::new();
            push_str(&mut key, "  ");
            push_str(&mut key, ps[i].0.as_str());
            push_str(&mut key, ": ");
            out.push(line2(span_chars(&key, Style::fg(t.text_key)), span_str(ps[i].1.as_str(), Style::plain())));
            assert(lines_view(out@) =~= before.push(seq![("  "@ + ps@[i as int].0@ + ": "@, fg(t.text_key)), (ps@[i as int].1@, plain())]));
            assert(ps@.take(i + 1) =~= ps@.take(i as int).push(ps@[i as int]));
            assert(lines_view(out@) =~= top + pair_lines(ps@.take(i + 1), *t));
            i = i + 1;
        }
        assert(ps@.take(ps@.len() as int) =~= ps@);
    }
    let ghost mid = lines_view(out@);
    assert(mid =~= history_head(*e, *t) + history_params(*e, *t));
    out.push(blank_line());
    out.push(line1(span_str("Enter = re-open endpoint  d = delete  Esc = back", Style::fg(t.text_secondary))));
    assert(lines_view(out@) =~= history_lines(*e, *t));
    out
}

} // verus!
