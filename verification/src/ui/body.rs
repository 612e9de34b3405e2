//! The response body with JSON colouring, and the request body with its cursor.

use vstd::prelude::*;
use crate::json::push_str;
use crate::text::{chars_of, string_of, trim_start, is_white, is_white_exec, find, find_exec, pieces, lemma_pieces_nonempty, lines_of, lines_exec};
use crate::theme::{Theme, Color, byte_len, utf8_width, utf8_width_exec};
use crate::ui::{Style, Span, Line, lines_view, plain, fg, span_str, span_chars, line1, line3};
use crate::views::request_builder::{line_end, next_nl, next_nl_of, lemma_next_nl_bound};

verus! {

// ── JSON colouring ───────────────────────────────────────────────────────────

/// The colour of a JSON value as it appears after a key.
pub open spec fn value_color(v: Seq<char>, t: Theme) -> Color {
    if v.len() > 0 && v[0] == '"' {
        t.json_string
    } else if v.len() > 0 && (('0' <= v[0] && v[0] <= '9') || v[0] == '-') {
        t.json_number
    } else if v == "true"@ || v == "false"@ {
        t.json_bool
    } else if v == "null"@ {
        t.json_null
    } else {
        t.text_primary
    }
}

/// A line of indented JSON text, coloured: when it holds a `:`, the indentation as
/// spaces (one per byte of leading white space), the key up to and with the colon, a
/// space, and the value in the colour of its kind; otherwise the line as it is.
pub open spec fn json_line(line: Seq<char>, t: Theme) -> Seq<(Seq<char>, Style)> {
    let trimmed = trim_start(line);
    let lead = line.take(line.len() - trimmed.len());
    match find(trimmed, ":"@) {
        Some(c) => {
            let v = trim_start(trimmed.skip(c + 1));
            seq![
                (Seq::new(byte_len(lead) as nat, |i: int| ' '), plain()),
                (trimmed.take(c + 1), fg(t.text_key)),
                (" "@, plain()),
                (v, fg(value_color(v, t))),
            ]
        },
        None => seq![(line, plain())],
    }
}

proof fn lemma_trim_start_skip(s: Seq<char>, k: int)
    requires
        0 <= k <= s.len(),
        forall|j: int| 0 <= j < k ==> is_white(#[trigger] s[j]),
        k == s.len() || !is_white(s[k]),
    ensures
        trim_start(s) == s.skip(k),
    decreases k,
{
    if k == 0 {
        assert(s.skip(0) =~= s);
    } else {
        assert(is_white(s[0]));
        assert forall|j: int| 0 <= j < k - 1 implies is_white(#[trigger] s.drop_first()[j]) by {
            assert(s.drop_first()[j] == s[j + 1]);
        }
        if k < s.len() {
            assert(s.drop_first()[k - 1] == s[k]);
        }
        lemma_trim_start_skip(s.drop_first(), k - 1);
        assert(s.drop_first().skip(k - 1) =~= s.skip(k));
    }
}

/// The position of the first character that is not white space.
fn first_non_white(cs: &Vec<char>, from: usize) -> (k: usize)
    requires
        from <= cs@.len(),
    ensures
        from <= k <= cs@.len(),
        trim_start(cs@.skip(from as int)) == cs@.skip(k as int),
{
    let mut k = from;
    while k < cs.len() && is_white_exec(cs[k])
        invariant
            from <= k <= cs@.len(),
            forall|j: int| from <= j < k ==> is_white(#[trigger] cs@[j]),
        decreases cs@.len() - k,
    {
        k = k + 1;
    }
    proof {
        let s = cs@.skip(from as int);
        assert forall|j: int| 0 <= j < k - from implies is_white(#[trigger] s[j]) by {
            assert(s[j] == cs@[from + j]);
        }
        if k < cs@.len() {
            assert(s[k - from] == cs@[k as int]);
        }
        lemma_trim_start_skip(s, k - from);
        assert(s.skip(k - from) =~= cs@.skip(k as int));
    }
    k
}

proof fn lemma_byte_len_push(s: Seq<char>, c: char)
    ensures
        byte_len(s.push(c)) == byte_len(s) + utf8_width(c),
    decreases s.len(),
{
    if s.len() > 0 {
        lemma_byte_len_push(s.drop_first(), c);
        assert(s.push(c).drop_first() =~= s.drop_first().push(c));
        assert(s.push(c)[0] == s[0]);
    } else {
        assert(s.push(c).drop_first() =~= Seq::<char>::empty());
        assert(s.push(c)[0] == c);
        assert(byte_len(Seq::<char>::empty()) == 0);
    }
}

fn sub_chars(cs: &Vec<char>, a: usize, b: usize) -> (r: Vec<char>)
    requires
        a <= b <= cs@.len(),
    ensures
        r@ == cs@.subrange(a as int, b as int),
{
    let mut r: Vec<char> = Vec::new();
    let mut i = a;
    while i < b
        invariant
            a <= i <= b <= cs@.len(),
            r@ == cs@.subrange(a as int, i as int),
        decreases b - i,
    {
        r.push(cs[i]);
        assert(r@ =~= cs@.subrange(a as int, i + 1));
        i = i + 1;
    }
    r
}

/// Colours a line of indented JSON text (see [`json_line`]).
pub fn colorize_json_line(line: &str, t: &Theme) -> (l: Line)
    ensures
        l@ == json_line(line@, *t),
{
    let cs = chars_of(line);
    let k = first_non_white(&cs, 0);
    assert(cs@.skip(0) =~= cs@);
    let ghost trimmed = cs@.skip(k as int);
    let lead = sub_chars(&cs, 0, k);
    assert(lead@ =~= cs@.take(cs@.len() - trimmed.len()));
    let mut width: u128 = 0;
    let mut i: usize = 0;
    while i < k
        invariant
            i <= k <= cs@.len(),
            width == byte_len(lead@.take(i as int)),
            width <= 4 * i,
            lead@ == cs@.subrange(0, k as int),
        decreases k - i,
    {
        proof {
            lemma_byte_len_push(lead@.take(i as int), lead@[i as int]);
            assert(lead@.take(i + 1) =~= lead@.take(i as int).push(lead@[i as int]));
        }
        width = width + utf8_width_exec(cs[i]) as u128;
        i = i + 1;
    }
    assert(lead@.take(k as int) =~= lead@);
    let rest = sub_chars(&cs, k, cs.len());
    assert(rest@ =~= trimmed);
    let colon = chars_of(":");
    match find_exec(&rest, &colon) {
        Some(c) => {
            proof {
                reveal_strlit(":");
                crate::app::lemma_find_bound(trimmed, ":"@);
            }
            let mut pad: Vec<char> = Vec::new();
            let mut n: u128 = 0;
            while n < width
                invariant
                    n <= width,
                    pad@ == Seq::new(n as nat, |j: int| ' '),
                decreases width - n,
            {
                pad.push(' ');
                assert(pad@ =~= Seq::new((n + 1) as nat, |j: int| ' '));
                n = n + 1;
            }
            let key = sub_chars(&rest, 0, c + 1);
            assert(key@ =~= trimmed.take(c + 1));
            let j = first_non_white(&rest, c + 1);
            let v = sub_chars(&rest, j, rest.len());
            assert(v@ =~= rest@.skip(j as int));
            let color = if v.len() > 0 && v[0] == '"' {
                t.json_string
            } else if v.len() > 0 && (('0' <= v[0] && v[0] <= '9') || v[0] == '-') {
                t.json_number
            } else if crate::schema::str_is(string_of(v.as_slice()).as_str(), "true") || crate::schema::str_is(
                string_of(v.as_slice()).as_str(),
                "false",
            ) {
                t.json_bool
            } else if crate::schema::str_is(string_of(v.as_slice()).as_str(), "null") {
                t.json_null
            } else {
                t.text_primary
            };
            let mut spans: Vec<Span> = Vec::new();
            spans.push(span_chars(&pad, Style::plain()));
            spans.push(span_chars(&key, Style::fg(t.text_key)));
            spans.push(span_str(" ", Style::plain()));
            spans.push(span_chars(&v, Style::fg(color)));
            let l = Line { spans };
            assert(l@ =~= json_line(line@, *t));
            l
        },
        None => line1(span_str(line, Style::plain())),
    }
}

// ── Body cursors ─────────────────────────────────────────────────────────────

/// The block cursor: the cursor colours on the character under it.
pub open spec fn block_style(t: Theme) -> Style {
    Style { fg: Some(t.cursor_block_fg), bg: Some(t.cursor_block_bg), ..plain() }
}

/// A line of text with the default style (what `Line::raw` makes of it).
pub open spec fn raw_line(s: Seq<char>) -> Seq<(Seq<char>, Style)> {
    lines_of(s).map_values(|l: Seq<char>| (l, plain()))
}

/// A body line starting at `start`, with the cursor drawn when it lies on the line (at
/// most at its end): in normal mode the character under it in the block style (a
/// space past the end), in insert mode a bar before it.
pub open spec fn cursor_line(p: Seq<char>, start: int, cursor: int, t: Theme, bar: bool) -> Seq<(Seq<char>, Style)> {
    if start <= cursor <= start + p.len() {
        let col = cursor - start;
        if bar {
            seq![(p.take(col), plain()), ("│"@, fg(t.cursor_bar)), (p.skip(col), plain())]
        } else if col < p.len() {
            seq![(p.take(col), plain()), (seq![p[col]], block_style(t)), (p.skip(col + 1), plain())]
        } else {
            seq![(p, plain()), (" "@, block_style(t)), (Seq::<char>::empty(), plain())]
        }
    } else {
        raw_line(p)
    }
}

/// The lines of the body from position `start` on (it splits at every line feed).
pub open spec fn cursor_lines(cs: Seq<char>, start: int, cursor: int, t: Theme, bar: bool) -> Seq<Seq<(Seq<char>, Style)>>
    decreases cs.len() - start,
{
    if start < 0 || start > cs.len() {
        Seq::empty()
    } else {
        let e = line_end(cs, start);
        let line = cursor_line(cs.subrange(start, e), start, cursor, t, bar);
        if e < cs.len() {
            proof {
                lemma_next_nl_bound(cs, start);
            }
            seq![line] + cursor_lines(cs, e + 1, cursor, t, bar)
        } else {
            seq![line]
        }
    }
}

fn raw_line_exec(p: &Vec<char>) -> (l: Line)
    ensures
        l@ == raw_line(p@),
{
    let text = string_of(p.as_slice());
    let ls = lines_exec(text.as_str());
    let mut spans: Vec<Span> = Vec::new();
    let mut i: usize = 0;
    while i < ls.len()
        invariant
            i <= ls@.len(),
            spans@.map_values(|s: Span| s@) == ls@.map_values(|l: Vec<char>| l@).take(i as int).map_values(
                |l: Seq<char>| (l, plain()),
            ),
        decreases ls@.len() - i,
    {
        let ghost before = spans@.map_values(|s: Span| s@);
        spans.push(span_chars(&ls[i], Style::plain()));
        assert(spans@.map_values(|s: Span| s@) =~= before.push((ls@[i as int]@, plain())));
        assert(ls@.map_values(|l: Vec<char>| l@).take(i + 1) =~= ls@.map_values(|l: Vec<char>| l@).take(i as int).push(ls@[i as int]@));
        assert(spans@.map_values(|s: Span| s@) =~= ls@.map_values(|l: Vec<char>| l@).take(i + 1).map_values(
            |l: Seq<char>| (l, plain()),
        ));
        i = i + 1;
    }
    assert(ls@.map_values(|l: Vec<char>| l@).take(ls@.len() as int) =~= ls@.map_values(|l: Vec<char>| l@));
    let l = Line { spans };
    l
}

fn cursor_line_exec(p: &Vec<char>, start: usize, cursor: usize, t: &Theme, bar: bool) -> (l: Line)
    ensures
        l@ == cursor_line(p@, start as int, cursor as int, *t, bar),
{
    if start <= cursor && cursor - start <= p.len() {
        let col = cursor - start;
        let before = sub_chars(p, 0, col);
        assert(before@ =~= p@.take(col as int));
        if bar {
            let after = sub_chars(p, col, p.len());
            assert(after@ =~= p@.skip(col as int));
            line3(span_chars(&before, Style::plain()), span_str("│", Style::fg(t.cursor_bar)), span_chars(&after, Style::plain()))
        } else {
            let block = Style { fg: Some(t.cursor_block_fg), bg: Some(t.cursor_block_bg), bold: false, italic: false, dim: false };
            if col < p.len() {
                let mut at: Vec<char> = Vec::new();
                at.push(p[col]);
                let after = sub_chars(p, col + 1, p.len());
                assert(after@ =~= p@.skip(col + 1));
                assert(at@ =~= seq![p@[col as int]]);
                line3(span_chars(&before, Style::plain()), span_chars(&at, block), span_chars(&after, Style::plain()))
            } else {
                assert(before@ =~= p@);
                line3(span_chars(&before, Style::plain()), span_str(" ", block), Span { text: String::new(), style: Style::plain() })
            }
        }
    } else {
        raw_line_exec(p)
    }
}

fn cursor_text(value: &str, cursor: usize, t: &Theme, bar: bool) -> (r: Vec<Line>)
    ensures
        lines_view(r@) == cursor_lines(value@, 0, cursor as int, *t, bar),
{
    let cs = chars_of(value);
    let mut out: Vec<Line> = Vec::new();
    let mut start: usize = 0;
    loop
        invariant_except_break
            lines_view(out@) + cursor_lines(cs@, start as int, cursor as int, *t, bar) == cursor_lines(
                cs@,
                0,
                cursor as int,
                *t,
                bar,
            ),
        invariant
            start <= cs@.len(),
            cs@ == value@,
        ensures
            lines_view(out@) == cursor_lines(cs@, 0, cursor as int, *t, bar),
        decreases cs@.len() - start,
    {
        proof {
            lemma_next_nl_bound(cs@, start as int);
        }
        let e = match next_nl_of(&cs, start) {
            Some(e) => e,
            None => cs.len(),
        };
        let piece = sub_chars(&cs, start, e);
        let ghost before = lines_view(out@);
        out.push(cursor_line_exec(&piece, start, cursor, t, bar));
        assert(lines_view(out@) =~= before.push(cursor_line(cs@.subrange(start as int, e as int), start as int, cursor as int, *t, bar)));
        if e < cs.len() {
            assert(lines_view(out@) + cursor_lines(cs@, e + 1, cursor as int, *t, bar) =~= before + cursor_lines(cs@, start as int, cursor as int, *t, bar));
            start = e + 1;
        } else {
            assert(lines_view(out@) =~= before + cursor_lines(cs@, start as int, cursor as int, *t, bar));
            break;
        }
    }
    out
}

/// The body in normal mode: the character at the cursor drawn as a block.
pub fn body_with_block_cursor(value: &str, cursor: usize, t: &Theme) -> (r: Vec<Line>)
    ensures
        lines_view(r@) == cursor_lines(value@, 0, cursor as int, *t, false),
{
    cursor_text(value, cursor, t, false)
}

/// The body in insert mode: a bar drawn at the cursor.
pub fn body_with_bar_cursor(value: &str, cursor: usize, t: &Theme) -> (r: Vec<Line>)
    ensures
        lines_view(r@) == cursor_lines(value@, 0, cursor as int, *t, true),
{
    cursor_text(value, cursor, t, true)
}

} // verus!
