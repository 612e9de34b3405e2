//! Markdown rendered as styled lines: the document is read by `pulldown_cmark` into
//! events, and the events are laid out here.

use vstd::prelude::*;
use crate::json::{nat_text, nat_to_text, push_str, push_str_chars};
use crate::text::{chars_of, string_of};
use crate::theme::Theme;
use crate::ui::{Style, Span, Line, lines_view, blank, blank_line, plain, fg, span_str, span_chars, line1};

verus! {

/// What the Markdown reader reports, as far as the layout uses it.
pub enum MdEvent {
    /// Start of a heading of the given level (1 to 6).
    StartHeading(u8),
    EndHeading,
    StartParagraph,
    EndParagraph,
    StartCodeBlock,
    EndCodeBlock,
    /// Start of a list: numbered from the given number, or bulleted.
    StartList(Option<u64>),
    EndList,
    StartItem,
    EndItem,
    StartQuote,
    EndQuote,
    StartStrong,
    EndStrong,
    StartEmphasis,
    EndEmphasis,
    Text(String),
    /// Inline code.
    Code(String),
    SoftBreak,
    HardBreak,
    Rule,
    /// Anything else (links, tables, HTML, ...), which the layout ignores.
    Other,
}

/// An event with its text as characters.
pub enum MdEventView {
    StartHeading(u8),
    EndHeading,
    StartParagraph,
    EndParagraph,
    StartCodeBlock,
    EndCodeBlock,
    StartList(Option<u64>),
    EndList,
    StartItem,
    EndItem,
    StartQuote,
    EndQuote,
    StartStrong,
    EndStrong,
    StartEmphasis,
    EndEmphasis,
    Text(Seq<char>),
    Code(Seq<char>),
    SoftBreak,
    HardBreak,
    Rule,
    Other,
}

impl View for MdEvent {
    type V = MdEventView;

    open spec fn view(&self) -> MdEventView {
        match self {
            MdEvent::StartHeading(l) => MdEventView::StartHeading(*l),
            MdEvent::EndHeading => MdEventView::EndHeading,
            MdEvent::StartParagraph => MdEventView::StartParagraph,
            MdEvent::EndParagraph => MdEventView::EndParagraph,
            MdEvent::StartCodeBlock => MdEventView::StartCodeBlock,
            MdEvent::EndCodeBlock => MdEventView::EndCodeBlock,
            MdEvent::StartList(n) => MdEventView::StartList(*n),
            MdEvent::EndList => MdEventView::EndList,
            MdEvent::StartItem => MdEventView::StartItem,
            MdEvent::EndItem => MdEventView::EndItem,
            MdEvent::StartQuote => MdEventView::StartQuote,
            MdEvent::EndQuote => MdEventView::EndQuote,
            MdEvent::StartStrong => MdEventView::StartStrong,
            MdEvent::EndStrong => MdEventView::EndStrong,
            MdEvent::StartEmphasis => MdEventView::StartEmphasis,
            MdEvent::EndEmphasis => MdEventView::EndEmphasis,
            MdEvent::Text(s) => MdEventView::Text(s@),
            MdEvent::Code(s) => MdEventView::Code(s@),
            MdEvent::SoftBreak => MdEventView::SoftBreak,
            MdEvent::HardBreak => MdEventView::HardBreak,
            MdEvent::Rule => MdEventView::Rule,
            MdEvent::Other => MdEventView::Other,
        }
    }
}

/// The events `pulldown_cmark` reads from a document (with strikethrough enabled).
pub uninterp spec fn markdown_events(input: Seq<char>) -> Seq<MdEventView>;

/// `pulldown_cmark::Parser::new_ext` with `Options::ENABLE_STRIKETHROUGH`, each event
/// converted to an [`MdEvent`] (the events are named [`markdown_events`]).
#[verifier::external_body]
pub(crate) fn md_events(input: &str) -> (r: Vec<MdEvent>)
    ensures
        r@.map_values(|e: MdEvent| e@) == markdown_events(input@),
{
    pulldown_cmark::Parser::new_ext(input, pulldown_cmark::Options::ENABLE_STRIKETHROUGH).map(|e| md_event_of(e)).collect()
}

#[verifier::external_type_specification]
#[verifier::external_body]
pub struct ExMarkdownEvent<'a>(pulldown_cmark::Event<'a>);

#[verifier::external_type_specification]
#[verifier::external_body]
pub struct ExMarkdownTag<'a>(pulldown_cmark::Tag<'a>);

#[verifier::external_type_specification]
#[verifier::external_body]
pub struct ExMarkdownTagEnd(pulldown_cmark::TagEnd);

/// Converts a `pulldown_cmark::Event` variant by variant (the text of `Text` and
/// `Code` carried over); nothing is stated of the result.
#[verifier::external_body]
fn md_event_of(e: pulldown_cmark::Event) -> MdEvent {
    match e {
        pulldown_cmark::Event::Start(t) => md_start_of(t),
        pulldown_cmark::Event::End(t) => md_end_of(t),
        pulldown_cmark::Event::Text(s) => MdEvent::Text(s.into_string()),
        pulldown_cmark::Event::Code(s) => MdEvent::Code(s.into_string()),
        pulldown_cmark::Event::SoftBreak => MdEvent::SoftBreak,
        pulldown_cmark::Event::HardBreak => MdEvent::HardBreak,
        pulldown_cmark::Event::Rule => MdEvent::Rule,
        _ => MdEvent::Other,
    }
}

/// Converts a `pulldown_cmark::Tag` at the start of an element; nothing is stated of
/// the result.
#[verifier::external_body]
fn md_start_of(t: pulldown_cmark::Tag) -> MdEvent {
    match t {
        pulldown_cmark::Tag::Heading { level, .. } => MdEvent::StartHeading(level as u8),
        pulldown_cmark::Tag::Paragraph => MdEvent::StartParagraph,
        pulldown_cmark::Tag::CodeBlock(_) => MdEvent::StartCodeBlock,
        pulldown_cmark::Tag::List(n) => MdEvent::StartList(n),
        pulldown_cmark::Tag::Item => MdEvent::StartItem,
        pulldown_cmark::Tag::BlockQuote(_) => MdEvent::StartQuote,
        pulldown_cmark::Tag::Strong => MdEvent::StartStrong,
        pulldown_cmark::Tag::Emphasis => MdEvent::StartEmphasis,
        _ => MdEvent::Other,
    }
}

/// Converts a `pulldown_cmark::TagEnd`; nothing is stated of the result.
#[verifier::external_body]
fn md_end_of(t: pulldown_cmark::TagEnd) -> MdEvent {
    match t {
        pulldown_cmark::TagEnd::Heading(_) => MdEvent::EndHeading,
        pulldown_cmark::TagEnd::Paragraph => MdEvent::EndParagraph,
        pulldown_cmark::TagEnd::CodeBlock => MdEvent::EndCodeBlock,
        pulldown_cmark::TagEnd::List(_) => MdEvent::EndList,
        pulldown_cmark::TagEnd::Item => MdEvent::EndItem,
        pulldown_cmark::TagEnd::BlockQuote(_) => MdEvent::EndQuote,
        pulldown_cmark::TagEnd::Strong => MdEvent::EndStrong,
        pulldown_cmark::TagEnd::Emphasis => MdEvent::EndEmphasis,
        _ => MdEvent::Other,
    }
}

// ── Layout ───────────────────────────────────────────────────────────────────

/// The layout state: finished lines, the line being built, bold, italic, heading
/// level, inside a code block, and the counters of the open lists (`None` for a
/// bulleted list).
pub type MdState = (Seq<Seq<(Seq<char>, Style)>>, Seq<(Seq<char>, Style)>, bool, bool, Option<u8>, bool, Seq<Option<nat>>);

/// The style of text: code blocks in the code colour; otherwise bold and italic as
/// set, and headings bold in the colour of their level (1, 2, or the primary text
/// colour below).
pub open spec fn md_style(bold: bool, italic: bool, code: bool, h: Option<u8>, t: Theme) -> Style {
    if code {
        fg(t.md_code)
    } else {
        match h {
            Some(level) => Style {
                fg: Some(if level == 1 { t.md_h1 } else if level == 2 { t.md_h2 } else { t.text_primary }),
                bg: None,
                bold: true,
                italic,
                dim: false,
            },
            None => Style { fg: None, bg: None, bold, italic, dim: false },
        }
    }
}

/// Ends the line being built, if it holds anything.
pub open spec fn md_flush(st: MdState) -> MdState {
    if st.1.len() > 0 {
        (st.0.push(st.1), Seq::empty(), st.2, st.3, st.4, st.5, st.6)
    } else {
        st
    }
}

/// A horizontal rule: forty box-drawing dashes.
pub open spec fn rule_text() -> Seq<char> {
    Seq::new(40, |i: int| '─')
}

/// The bullet or number that starts a list item.
pub open spec fn item_prefix(lists: Seq<Option<nat>>) -> Seq<char> {
    if lists.len() > 0 && lists.last() is Some {
        nat_text(lists.last().unwrap()) + ". "@
    } else {
        "• "@
    }
}

/// The layout state after one event.
pub open spec fn md_step(st: MdState, e: MdEventView, t: Theme) -> MdState {
    let f = md_flush(st);
    match e {
        MdEventView::StartHeading(l) => (f.0, f.1, f.2, f.3, Some(l), f.5, f.6),
        MdEventView::EndHeading => (f.0.push(blank()), f.1, f.2, f.3, None, f.5, f.6),
        MdEventView::StartParagraph => st,
        MdEventView::EndParagraph => (f.0.push(blank()), f.1, f.2, f.3, f.4, f.5, f.6),
        MdEventView::StartCodeBlock => (f.0, f.1, f.2, f.3, f.4, true, f.6),
        MdEventView::EndCodeBlock => (f.0.push(blank()), f.1, f.2, f.3, f.4, false, f.6),
        MdEventView::StartList(n) => (st.0, st.1, st.2, st.3, st.4, st.5, st.6.push(
            match n {
                Some(k) => Some(k as nat),
                None => None,
            },
        )),
        MdEventView::EndList => {
            let rest = if st.6.len() > 0 { st.6.drop_last() } else { st.6 };
            (if rest.len() == 0 { st.0.push(blank()) } else { st.0 }, st.1, st.2, st.3, st.4, st.5, rest)
        },
        MdEventView::StartItem => (f.0, f.1.push((item_prefix(st.6), plain())), f.2, f.3, f.4, f.5, f.6),
        MdEventView::EndItem => {
            let lists = if st.6.len() > 0 && st.6.last() is Some {
                st.6.update(st.6.len() - 1, Some(st.6.last().unwrap() + 1))
            } else {
                st.6
            };
            (f.0, f.1, f.2, f.3, f.4, f.5, lists)
        },
        MdEventView::StartQuote => (st.0, st.1.push(("▌ "@, fg(t.md_quote))), st.2, st.3, st.4, st.5, st.6),
        MdEventView::EndQuote => (f.0.push(blank()), f.1, f.2, f.3, f.4, f.5, f.6),
        MdEventView::StartStrong => (st.0, st.1, true, st.3, st.4, st.5, st.6),
        MdEventView::EndStrong => (st.0, st.1, false, st.3, st.4, st.5, st.6),
        MdEventView::StartEmphasis => (st.0, st.1, st.2, true, st.4, st.5, st.6),
        MdEventView::EndEmphasis => (st.0, st.1, st.2, false, st.4, st.5, st.6),
        MdEventView::Text(s) => (st.0, st.1.push((s, md_style(st.2, st.3, st.5, st.4, t))), st.2, st.3, st.4, st.5, st.6),
        MdEventView::Code(s) => (st.0, st.1.push(("`"@ + s + "`"@, fg(t.md_code))), st.2, st.3, st.4, st.5, st.6),
        MdEventView::SoftBreak => (st.0, st.1.push((" "@, plain())), st.2, st.3, st.4, st.5, st.6),
        MdEventView::HardBreak => f,
        MdEventView::Rule => (
            f.0.push(seq![(rule_text(), fg(t.md_quote))]).push(blank()),
            f.1,
            f.2,
            f.3,
            f.4,
            f.5,
            f.6,
        ),
        MdEventView::Other => st,
    }
}

/// The layout state after the events in order.
pub open spec fn md_run(es: Seq<MdEventView>, t: Theme) -> MdState
    decreases es.len(),
{
    if es.len() == 0 {
        (Seq::empty(), Seq::empty(), false, false, None, false, Seq::empty())
    } else {
        md_step(md_run(es.drop_last(), t), es.last(), t)
    }
}

/// The lines laid out for the events.
pub open spec fn md_lines(es: Seq<MdEventView>, t: Theme) -> Seq<Seq<(Seq<char>, Style)>> {
    md_flush(md_run(es, t)).0
}

/// Whether no item number would pass `u64::MAX`.
pub open spec fn md_fits(es: Seq<MdEventView>, t: Theme) -> bool
    decreases es.len(),
{
    if es.len() == 0 {
        true
    } else {
        let st = md_run(es.drop_last(), t);
        &&& md_fits(es.drop_last(), t)
        &&& (es.last() is EndItem && st.6.len() > 0 && st.6.last() is Some) ==> st.6.last().unwrap() < u64::MAX
    }
}

pub open spec fn counters_view(v: Seq<Option<u64>>) -> Seq<Option<nat>> {
    v.map_values(|o: Option<u64>| match o {
        Some(k) => Some(k as nat),
        None => None,
    })
}

fn flush_exec(lines: &mut Vec<Line>, spans: &mut Vec<Span>)
    ensures
        ({
            let st = (lines_view(old(lines)@), old(spans)@.map_values(|s: Span| s@), false, false, None::<u8>, false, Seq::<Option<nat>>::empty());
            &&& lines_view(final(lines)@) == md_flush(st).0
            &&& final(spans)@.map_values(|s: Span| s@) == md_flush(st).1
        }),
{
    if spans.len() > 0 {
        let mut taken: Vec<Span> = Vec::new();
        std::mem::swap(&mut taken, spans);
        let ghost sv = taken@.map_values(|s: Span| s@);
        lines.push(Line { spans: taken });
        assert(lines_view(lines@) =~= lines_view(old(lines)@).push(sv));
        assert(spans@.map_values(|s: Span| s@) =~= Seq::<(Seq<char>, Style)>::empty());
    }
}

/// Lays out Markdown events as styled lines (see [`md_lines`]).
pub fn render_markdown(events: &Vec<MdEvent>, t: &Theme) -> (r: Vec<Line>)
    requires
        md_fits(events@.map_values(|e: MdEvent| e@), *t),
    ensures
        lines_view(r@) == md_lines(events@.map_values(|e: MdEvent| e@), *t),
{
    let ghost es = events@.map_values(|e: MdEvent| e@);
    let mut lines: Vec<Line> = Vec::new();
    let mut spans: Vec<Span> = Vec::new();
    let mut bold = false;
    let mut italic = false;
    let mut heading: Option<u8> = None;
    let mut code = false;
    let mut lists: Vec<Option<u64>> = Vec::new();
    let mut i: usize = 0;
    while i < events.len()
        invariant
            i <= events@.len(),
            es == events@.map_values(|e: MdEvent| e@),
            md_fits(es, *t),
            md_run(es.take(i as int), *t) == (
                lines_view(lines@),
                spans@.map_values(|s: Span| s@),
                bold,
                italic,
                heading,
                code,
                counters_view(lists@),
            ),
        decreases events@.len() - i,
    {
        proof {
            assert(es.take(i + 1).drop_last() =~= es.take(i as int));
            assert(es.take(i + 1).last() == events@[i as int]@);
            lemma_fits_prefix(es, *t, i + 1);
        }
        let ghost st = md_run(es.take(i as int), *t);
        match &events[i] {
            MdEvent::StartHeading(l) => {
                flush_exec(&mut lines, &mut spans);
                heading = Some(*l);
            },
            MdEvent::EndHeading => {
                flush_exec(&mut lines, &mut spans);
                lines.push(blank_line());
                heading = None;
            },
            MdEvent::StartParagraph => {},
            MdEvent::EndParagraph => {
                flush_exec(&mut lines, &mut spans);
                lines.push(blank_line());
            },
            MdEvent::StartCodeBlock => {
                flush_exec(&mut lines, &mut spans);
                code = true;
            },
            MdEvent::EndCodeBlock => {
                flush_exec(&mut lines, &mut spans);
                lines.push(blank_line());
                code = false;
            },
            MdEvent::StartList(n) => {
                lists.push(*n);
                assert(counters_view(lists@) =~= st.6.push(
                    match *n {
                        Some(k) => Some(k as nat),
                        None => None,
                    },
                ));
            },
            MdEvent::EndList => {
                let ghost before = lists@;
                lists.pop();
                assert(counters_view(lists@) =~= if st.6.len() > 0 { st.6.drop_last() } else { st.6 });
                if lists.len() == 0 {
                    lines.push(blank_line());
                }
            },
            MdEvent::StartItem => {
                flush_exec(&mut lines, &mut spans);
                let n = lists.len();
                let prefix = if n > 0 && lists[n - 1].is_some() {
                    let k = match lists[n - 1] {
                        Some(k) => k,
                        None => 0,
                    };
                    let mut p: Vec<char> = Vec::new();
                    push_str(&mut p, nat_to_text(k as u128).as_str());
                    push_str(&mut p, ". ");
                    p
                } else {
                    chars_of("• ")
                };
                let ghost before = spans@.map_values(|s: Span| s@);
                spans.push(span_chars(&prefix, Style::plain()));
                assert(spans@.map_values(|s: Span| s@) =~= before.push((item_prefix(st.6), plain())));
            },
            MdEvent::EndItem => {
                let n = lists.len();
                if n > 0 {
                    match lists[n - 1] {
                        Some(k) => {
                            lists.set(n - 1, Some(k + 1));
                        },
                        None => {},
                    }
                }
                assert(counters_view(lists@) =~= if st.6.len() > 0 && st.6.last() is Some {
                    st.6.update(st.6.len() - 1, Some(st.6.last().unwrap() + 1))
                } else {
                    st.6
                });
                flush_exec(&mut lines, &mut spans);
            },
            MdEvent::StartQuote => {
                let ghost before = spans@.map_values(|s: Span| s@);
                spans.push(span_str("▌ ", Style::fg(t.md_quote)));
                assert(spans@.map_values(|s: Span| s@) =~= before.push(("▌ "@, fg(t.md_quote))));
            },
            MdEvent::EndQuote => {
                flush_exec(&mut lines, &mut spans);
                lines.push(blank_line());
            },
            MdEvent::StartStrong => {
                bold = true;
            },
            MdEvent::EndStrong => {
                bold = false;
            },
            MdEvent::StartEmphasis => {
                italic = true;
            },
            MdEvent::EndEmphasis => {
                italic = false;
            },
            MdEvent::Text(s) => {
                let style = if code {
                    Style::fg(t.md_code)
                } else {
                    match heading {
                        Some(level) => Style {
                            fg: Some(if level == 1 { t.md_h1 } else if level == 2 { t.md_h2 } else { t.text_primary }),
                            bg: None,
                            bold: true,
                            italic,
                            dim: false,
                        },
                        None => Style { fg: None, bg: None, bold, italic, dim: false },
                    }
                };
                let ghost before = spans@.map_values(|s: Span| s@);
                spans.push(span_str(s.as_str(), style));
                assert(spans@.map_values(|s: Span| s@) =~= before.push((s@, md_style(bold, italic, code, heading, *t))));
            },
            MdEvent::Code(s) => {
                let mut text: Vec<char> = Vec::new();
                push_str(&mut text, "`");
                push_str(&mut text, s.as_str());
                push_str(&mut text, "`");
                let ghost before = spans@.map_values(|s: Span| s@);
                spans.push(span_chars(&text, Style::fg(t.md_code)));
                assert(spans@.map_values(|s: Span| s@) =~= before.push(("`"@ + s@ + "`"@, fg(t.md_code))));
            },
            MdEvent::SoftBreak => {
                let ghost before = spans@.map_values(|s: Span| s@);
                spans.push(span_str(" ", Style::plain()));
                assert(spans@.map_values(|s: Span| s@) =~= before.push((" "@, plain())));
            },
            MdEvent::HardBreak => {
                flush_exec(&mut lines, &mut spans);
            },
            MdEvent::Rule => {
                flush_exec(&mut lines, &mut spans);
                let mut dashes: Vec<char> = Vec::new();
                let mut k: usize = 0;
                while k < 40
                    invariant
                        k <= 40,
                        dashes@ == Seq::new(k as nat, |j: int| '─'),
                    decreases 40 - k,
                {
                    dashes.push('─');
                    assert(dashes@ =~= Seq::new((k + 1) as nat, |j: int| '─'));
                    k = k + 1;
                }
                let ghost before = lines_view(lines@);
                lines.push(line1(span_chars(&dashes, Style::fg(t.md_quote))));
                lines.push(blank_line());
                assert(lines_view(lines@) =~= before.push(seq![(rule_text(), fg(t.md_quote))]).push(blank()));
            },
            MdEvent::Other => {},
        }
        i = i + 1;
    }
    assert(es.take(es.len() as int) =~= es);
    flush_exec(&mut lines, &mut spans);
    lines
}

proof fn lemma_fits_prefix(es: Seq<MdEventView>, t: Theme, n: int)
    requires
        0 <= n <= es.len(),
        md_fits(es, t),
    ensures
        md_fits(es.take(n), t),
    decreases es.len() - n,
{
    if n < es.len() {
        assert(es.drop_last().take(n) =~= es.take(n));
        lemma_fits_prefix(es.drop_last(), t, n);
    } else {
        assert(es.take(n) =~= es);
    }
}

/// Whether no item number of the events would pass `u64::MAX` (see [`md_fits`]).
pub fn events_fit(events: &Vec<MdEvent>, t: &Theme) -> (b: bool)
    ensures
        b == md_fits(events@.map_values(|e: MdEvent| e@), *t),
{
    let ghost es = events@.map_values(|e: MdEvent| e@);
    let mut lists: Vec<Option<u64>> = Vec::new();
    let mut i: usize = 0;
    assert(es.take(0) =~= Seq::<MdEventView>::empty());
    while i < events.len()
        invariant
            i <= events@.len(),
            es == events@.map_values(|e: MdEvent| e@),
            md_fits(es.take(i as int), *t),
            md_run(es.take(i as int), *t).6 == counters_view(lists@),
        decreases events@.len() - i,
    {
        proof {
            assert(es.take(i + 1).drop_last() =~= es.take(i as int));
            assert(es.take(i + 1).last() == events@[i as int]@);
        }
        let ghost st = md_run(es.take(i as int), *t);
        match &events[i] {
            MdEvent::StartList(n) => {
                lists.push(*n);
                assert(counters_view(lists@) =~= st.6.push(
                    match *n {
                        Some(k) => Some(k as nat),
                        None => None,
                    },
                ));
            },
            MdEvent::EndList => {
                lists.pop();
                assert(counters_view(lists@) =~= if st.6.len() > 0 { st.6.drop_last() } else { st.6 });
            },
            MdEvent::EndItem => {
                let n = lists.len();
                if n > 0 {
                    match lists[n - 1] {
                        Some(k) => {
                            if k == u64::MAX {
                                proof {
                                    lemma_fits_extend(es, *t, i + 1);
                                }
                                return false;
                            }
                            lists.set(n - 1, Some(k + 1));
                        },
                        None => {},
                    }
                }
                assert(counters_view(lists@) =~= if st.6.len() > 0 && st.6.last() is Some {
                    st.6.update(st.6.len() - 1, Some(st.6.last().unwrap() + 1))
                } else {
                    st.6
                });
            },
            _ => {},
        }
        i = i + 1;
    }
    assert(es.take(es.len() as int) =~= es);
    true
}

proof fn lemma_fits_extend(es: Seq<MdEventView>, t: Theme, n: int)
    requires
        0 <= n <= es.len(),
        !md_fits(es.take(n), t),
    ensures
        !md_fits(es, t),
{
    if md_fits(es, t) {
        lemma_fits_prefix(es, t, n);
    }
}

/// A Markdown document as styled lines: the events `pulldown_cmark` reads (see
/// [`md_events`]) laid out by [`render_markdown`]; `None` when an item number would
/// pass `u64::MAX`.
pub fn markdown_to_lines(input: &str, t: &Theme) -> (r: Option<Vec<Line>>)
    ensures
        match r {
            Some(ls) => md_fits(markdown_events(input@), *t) && lines_view(ls@) == md_lines(markdown_events(input@), *t),
            None => !md_fits(markdown_events(input@), *t),
        },
{
    let events = md_events(input);
    if events_fit(&events, t) {
        Some(render_markdown(&events, t))
    } else {
        None
    }
}

} // verus!
