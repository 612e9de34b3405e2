//! The colour theme: built-in defaults, overridable per role from the configuration.

use vstd::prelude::*;
use crate::config::ThemeConfig;
use crate::text::{chars_of, string_of, trim, trim_chars, ascii_lower, ascii_lower_exec};
use crate::schema::str_is;

verus! {

/// A terminal colour.
#[derive(PartialEq, Eq, Structural, Clone, Copy, Debug)]
pub enum Color {
    Reset,
    Black,
    Red,
    Green,
    Yellow,
    Blue,
    Magenta,
    Cyan,
    Gray,
    DarkGray,
    LightRed,
    LightGreen,
    LightYellow,
    LightBlue,
    LightMagenta,
    LightCyan,
    White,
    Rgb(u8, u8, u8),
    Indexed(u8),
}

// ── Parsing colour names ─────────────────────────────────────────────────────

/// Bytes taken by `c` in UTF-8.
pub open spec fn utf8_width(c: char) -> int {
    if (c as u32) < 0x80 {
        1
    } else if (c as u32) < 0x800 {
        2
    } else if (c as u32) < 0x10000 {
        3
    } else {
        4
    }
}

/// Bytes taken by `s` in UTF-8.
pub open spec fn byte_len(s: Seq<char>) -> int
    decreases s.len(),
{
    if s.len() == 0 {
        0
    } else {
        utf8_width(s[0]) + byte_len(s.drop_first())
    }
}

/// How many leading characters of `s` take exactly `b` bytes; `None` when byte `b`
/// falls inside a character or past the end.
pub open spec fn chars_for_bytes(s: Seq<char>, b: int) -> Option<int>
    decreases s.len(),
{
    if b == 0 {
        Some(0)
    } else if s.len() == 0 || b < 0 {
        None
    } else {
        match chars_for_bytes(s.drop_first(), b - utf8_width(s[0])) {
            Some(k) => Some(k + 1),
            None => None,
        }
    }
}

/// Value of a digit in the given radix (letters of either case stand for 10 and up).
pub open spec fn digit_value(c: char, radix: nat) -> Option<nat> {
    let v: int = if '0' <= c && c <= '9' {
        c as int - '0' as int
    } else if 'a' <= c && c <= 'z' {
        c as int - 'a' as int + 10
    } else if 'A' <= c && c <= 'Z' {
        c as int - 'A' as int + 10
    } else {
        -1
    };
    if 0 <= v < radix {
        Some(v as nat)
    } else {
        None
    }
}

/// Value of a run of digits, `None` if one is not a digit of the radix.
pub open spec fn digits_value(ds: Seq<char>, radix: nat) -> Option<nat>
    decreases ds.len(),
{
    if ds.len() == 0 {
        Some(0)
    } else {
        match (digits_value(ds.drop_last(), radix), digit_value(ds.last(), radix)) {
            (Some(v), Some(d)) => Some(v * radix + d),
            _ => None,
        }
    }
}

/// An unsigned number written in the radix, as `from_str_radix` of an unsigned type
/// whose largest value is `max` reads it: an optional `+`, then at least one digit,
/// the value at most `max`.
pub open spec fn parse_num(s: Seq<char>, radix: nat, max: nat) -> Option<nat> {
    if s.len() == 0 {
        None
    } else {
        let ds = if s[0] == '+' {
            s.drop_first()
        } else {
            s
        };
        if ds.len() == 0 {
            None
        } else {
            match digits_value(ds, radix) {
                Some(v) => if v <= max {
                    Some(v)
                } else {
                    None
                },
                None => None,
            }
        }
    }
}

/// An unsigned byte written in the radix, as `u8::from_str_radix` reads it: an optional
/// `+`, then at least one digit, the value at most 255.
pub open spec fn parse_u8(s: Seq<char>, radix: nat) -> Option<u8> {
    if s.len() == 0 {
        None
    } else {
        let ds = if s[0] == '+' {
            s.drop_first()
        } else {
            s
        };
        if ds.len() == 0 {
            None
        } else {
            match digits_value(ds, radix) {
                Some(v) => if v <= 255 {
                    Some(v as u8)
                } else {
                    None
                },
                None => None,
            }
        }
    }
}

/// Whether reading `#` followed by `h` would slice a character in two: `h` takes six
/// bytes and byte 2 falls inside a character, or the first pair reads and byte 4 does.
pub open spec fn hex_splits_char(h: Seq<char>) -> bool {
    byte_len(h) == 6 && match chars_for_bytes(h, 2) {
        None => true,
        Some(k0) => parse_u8(h.take(k0), 16) is Some && chars_for_bytes(h, 4) is None,
    }
}

/// Colour of `#` followed by `h`: six bytes read as three hexadecimal pairs.
pub open spec fn hex_color(h: Seq<char>) -> Option<Color> {
    if byte_len(h) != 6 {
        None
    } else {
        let k0 = chars_for_bytes(h, 2).unwrap();
        let k1 = chars_for_bytes(h, 4).unwrap();
        match (parse_u8(h.take(k0), 16), parse_u8(h.subrange(k0, k1), 16), parse_u8(h.skip(k1), 16)) {
            (Some(r), Some(g), Some(b)) => Some(Color::Rgb(r, g, b)),
            _ => None,
        }
    }
}

/// The text as read: without surrounding white space, ASCII letters in lower case.
pub open spec fn normalized(s: Seq<char>) -> Seq<char> {
    trim(s).map_values(|c: char| ascii_lower(c))
}

/// Colour named by a normalized text other than a `#` form.
pub open spec fn named_color(s: Seq<char>) -> Option<Color> {
    if false {
        None
    } else if s == "black"@ {
        Some(Color::Black)
    } else if s == "red"@ {
        Some(Color::Red)
    } else if s == "green"@ {
        Some(Color::Green)
    } else if s == "yellow"@ {
        Some(Color::Yellow)
    } else if s == "blue"@ {
        Some(Color::Blue)
    } else if s == "magenta"@ {
        Some(Color::Magenta)
    } else if s == "purple"@ {
        Some(Color::Magenta)
    } else if s == "cyan"@ {
        Some(Color::Cyan)
    } else if s == "gray"@ {
        Some(Color::Gray)
    } else if s == "grey"@ {
        Some(Color::Gray)
    } else if s == "dark_gray"@ {
        Some(Color::DarkGray)
    } else if s == "darkgray"@ {
        Some(Color::DarkGray)
    } else if s == "dark_grey"@ {
        Some(Color::DarkGray)
    } else if s == "darkgrey"@ {
        Some(Color::DarkGray)
    } else if s == "light_red"@ {
        Some(Color::LightRed)
    } else if s == "lightred"@ {
        Some(Color::LightRed)
    } else if s == "light_green"@ {
        Some(Color::LightGreen)
    } else if s == "lightgreen"@ {
        Some(Color::LightGreen)
    } else if s == "light_yellow"@ {
        Some(Color::LightYellow)
    } else if s == "lightyellow"@ {
        Some(Color::LightYellow)
    } else if s == "light_blue"@ {
        Some(Color::LightBlue)
    } else if s == "lightblue"@ {
        Some(Color::LightBlue)
    } else if s == "light_magenta"@ {
        Some(Color::LightMagenta)
    } else if s == "lightmagenta"@ {
        Some(Color::LightMagenta)
    } else if s == "light_cyan"@ {
        Some(Color::LightCyan)
    } else if s == "lightcyan"@ {
        Some(Color::LightCyan)
    } else if s == "white"@ {
        Some(Color::White)
    } else if s == "reset"@ {
        Some(Color::Reset)
    } else {
        match parse_u8(s, 10) {
            Some(n) => Some(Color::Indexed(n)),
            None => None,
        }
    }
}

/// What a colour setting names: `#rrggbb`, a colour name (with the aliases purple,
/// grey and the forms without underscore), or a palette index 0–255.
pub open spec fn color_of(s: Seq<char>) -> Option<Color> {
    let t = normalized(s);
    if t.len() > 0 && t[0] == '#' {
        hex_color(t.drop_first())
    } else {
        named_color(t)
    }
}

/// Whether reading `s` as a colour runs to the end (it does unless a `#` form slices a
/// character in two).
pub open spec fn color_readable(s: Seq<char>) -> bool {
    let t = normalized(s);
    !(t.len() > 0 && t[0] == '#' && hex_splits_char(t.drop_first()))
}

proof fn lemma_digits_grow(ds: Seq<char>, radix: nat, i: int)
    requires
        0 <= i <= ds.len(),
        radix >= 1,
        digits_value(ds, radix) is Some,
    ensures
        digits_value(ds.take(i), radix) is Some,
        digits_value(ds.take(i), radix).unwrap() <= digits_value(ds, radix).unwrap(),
    decreases ds.len() - i,
{
    if i == ds.len() {
        assert(ds.take(i) =~= ds);
    } else {
        lemma_digits_grow(ds, radix, i + 1);
        assert(ds.take(i + 1).drop_last() =~= ds.take(i));
        let v = digits_value(ds.take(i), radix).unwrap();
        assert(v * radix >= v) by (nonlinear_arith)
            requires
                radix >= 1,
        ;
    }
}

/// Reads an unsigned number as [`parse_num`] does.
pub fn parse_num_exec(s: &[char], radix: u32, max: u32) -> (r: Option<u32>)
    requires
        2 <= radix <= 36,
        max <= 65535,
    ensures
        match r {
            Some(v) => parse_num(s@, radix as nat, max as nat) == Some(v as nat),
            None => parse_num(s@, radix as nat, max as nat) is None,
        },
{
    if s.len() == 0 {
        return None;
    }
    let start: usize = if s[0] == '+' { 1 } else { 0 };
    let ghost ds = if s@[0] == '+' { s@.drop_first() } else { s@ };
    assert(ds =~= s@.skip(start as int));
    if start == s.len() {
        return None;
    }
    let mut v: u32 = 0;
    let mut i: usize = start;
    assert(ds.take(0) =~= Seq::<char>::empty());
    while i < s.len()
        invariant
            start <= i <= s@.len(),
            start < s@.len(),
            ds == s@.skip(start as int),
            ds == (if s@[0] == '+' { s@.drop_first() } else { s@ }),
            2 <= radix <= 36,
            digits_value(ds.take(i - start), radix as nat) == Some(v as nat),
            v <= max,
            max <= 65535,
        decreases s@.len() - i,
    {
        let c = s[i];
        let d: u32 = if '0' <= c && c <= '9' {
            (c as u32) - ('0' as u32)
        } else if 'a' <= c && c <= 'z' {
            (c as u32) - ('a' as u32) + 10
        } else if 'A' <= c && c <= 'Z' {
            (c as u32) - ('A' as u32) + 10
        } else {
            99
        };
        assert(ds.take(i + 1 - start).drop_last() =~= ds.take(i - start));
        assert(ds.take(i + 1 - start).last() == c);
        if d >= radix {
            proof {
                assert(digit_value(c, radix as nat) is None);
                assert(digits_value(ds.take(i + 1 - start), radix as nat) is None);
                if digits_value(ds, radix as nat) is Some {
                    lemma_digits_grow(ds, radix as nat, i + 1 - start);
                }
                assert(digits_value(ds, radix as nat) is None || digits_value(ds, radix as nat).unwrap() > max);
                assert(ds.len() > 0);
                assert(parse_num(s@, radix as nat, max as nat) is None);
            }
            return None;
        }
        assert(digit_value(c, radix as nat) == Some(d as nat));
        assert(v * radix + d <= 65535 * 36 + 36) by (nonlinear_arith)
            requires
                v <= 65535,
                radix <= 36,
                d < radix,
        ;
        let w = v * radix + d;
        if w > max {
            proof {
                assert(digits_value(ds.take(i + 1 - start), radix as nat) == Some(w as nat));
                if digits_value(ds, radix as nat) is Some {
                    lemma_digits_grow(ds, radix as nat, i + 1 - start);
                }
                assert(digits_value(ds, radix as nat) is None || digits_value(ds, radix as nat).unwrap() > max);
                assert(ds.len() > 0);
                assert(parse_num(s@, radix as nat, max as nat) is None);
            }
            return None;
        }
        v = w;
        i = i + 1;
    }
    assert(ds.take(i - start) =~= ds);
    Some(v)
}

/// Reads an unsigned byte as [`parse_u8`] does.
pub fn parse_u8_exec(s: &[char], radix: u32) -> (r: Option<u8>)
    requires
        2 <= radix <= 36,
    ensures
        r == parse_u8(s@, radix as nat),
{
    match parse_num_exec(s, radix, 255) {
        Some(v) => Some(v as u8),
        None => None,
    }
}

/// Bytes taken by `c` in UTF-8.
pub fn utf8_width_exec(c: char) -> (w: usize)
    ensures
        w == utf8_width(c),
{
    if (c as u32) < 0x80 {
        1
    } else if (c as u32) < 0x800 {
        2
    } else if (c as u32) < 0x10000 {
        3
    } else {
        4
    }
}

/// Whether `s` takes exactly `b` bytes.
fn byte_len_is(s: &[char], b: usize) -> (r: bool)
    ensures
        r == (byte_len(s@) == b),
{
    let mut i: usize = 0;
    let mut n: usize = 0;
    assert(s@.skip(0) =~= s@);
    while i < s.len()
        invariant
            i <= s@.len(),
            n <= b,
            byte_len(s@) == n + byte_len(s@.skip(i as int)),
        decreases s@.len() - i,
    {
        assert(s@.skip(i as int).drop_first() =~= s@.skip(i + 1));
        let w = utf8_width_exec(s[i]);
        if w > b - n {
            proof {
                lemma_byte_len_nonneg(s@.skip(i + 1));
            }
            return false;
        }
        n = n + w;
        i = i + 1;
    }
    assert(s@.skip(i as int) =~= Seq::<char>::empty());
    n == b
}

pub proof fn lemma_byte_len_nonneg(s: Seq<char>)
    ensures
        byte_len(s) >= 0,
    decreases s.len(),
{
    if s.len() > 0 {
        lemma_byte_len_nonneg(s.drop_first());
    }
}

/// Computes [`chars_for_bytes`].
fn chars_for_bytes_exec(s: &[char], b: usize) -> (r: Option<usize>)
    ensures
        match r {
            Some(k) => chars_for_bytes(s@, b as int) == Some(k as int),
            None => chars_for_bytes(s@, b as int) is None,
        },
{
    let mut i: usize = 0;
    let mut n: usize = 0;
    assert(s@.skip(0) =~= s@);
    while i < s.len() && n < b
        invariant
            i <= s@.len(),
            n <= b,
            chars_for_bytes(s@, b as int) == match chars_for_bytes(s@.skip(i as int), b - n) {
                Some(k) => Some(k + i),
                None => None,
            },
        decreases s@.len() - i,
    {
        assert(s@.skip(i as int).drop_first() =~= s@.skip(i + 1));
        let w = utf8_width_exec(s[i]);
        if w > b - n {
            assert(chars_for_bytes(s@.skip(i + 1), b - n - w) is None);
            assert(chars_for_bytes(s@.skip(i as int), b - n) is None);
            return None;
        }
        n = n + w;
        i = i + 1;
    }
    if n == b {
        Some(i)
    } else {
        None
    }
}

/// Reads `#` followed by `h` (see [`hex_color`]).
fn hex_color_exec(h: &Vec<char>) -> (r: Option<Color>)
    requires
        !hex_splits_char(h@),
    ensures
        r == hex_color(h@),
{
    if !byte_len_is(h.as_slice(), 6) {
        return None;
    }
    let k0 = match chars_for_bytes_exec(h.as_slice(), 2) {
        Some(k) => k,
        None => {
            return None;
        },
    };
    let ghost c0 = chars_for_bytes(h@, 2);
    proof {
        lemma_chars_for_bytes_bound(h@, 2);
        lemma_chars_for_bytes_bound(h@, 4);
    }
    let r = match parse_u8_exec(&h.as_slice()[0..k0], 16) {
        Some(v) => v,
        None => {
            assert(h@.subrange(0, k0 as int) =~= h@.take(k0 as int));
            return None;
        },
    };
    assert(h@.subrange(0, k0 as int) =~= h@.take(k0 as int));
    let k1 = match chars_for_bytes_exec(h.as_slice(), 4) {
        Some(k) => k,
        None => {
            return None;
        },
    };
    proof {
        lemma_chars_for_bytes_mono(h@, 2, 4);
    }
    let g = match parse_u8_exec(&h.as_slice()[k0..k1], 16) {
        Some(v) => v,
        None => {
            return None;
        },
    };
    let b = match parse_u8_exec(&h.as_slice()[k1..h.len()], 16) {
        Some(v) => v,
        None => {
            assert(h@.subrange(k1 as int, h@.len() as int) =~= h@.skip(k1 as int));
            return None;
        },
    };
    assert(h@.subrange(k1 as int, h@.len() as int) =~= h@.skip(k1 as int));
    Some(Color::Rgb(r, g, b))
}

proof fn lemma_chars_for_bytes_bound(s: Seq<char>, b: int)
    ensures
        chars_for_bytes(s, b) matches Some(k) ==> 0 <= k <= s.len(),
    decreases s.len(),
{
    if b != 0 && s.len() > 0 && b >= 0 {
        lemma_chars_for_bytes_bound(s.drop_first(), b - utf8_width(s[0]));
    }
}

proof fn lemma_chars_for_bytes_mono(s: Seq<char>, a: int, b: int)
    requires
        0 <= a <= b,
        chars_for_bytes(s, a) is Some,
        chars_for_bytes(s, b) is Some,
    ensures
        chars_for_bytes(s, a).unwrap() <= chars_for_bytes(s, b).unwrap(),
    decreases s.len(),
{
    lemma_chars_for_bytes_bound(s, b);
    if a != 0 && s.len() > 0 {
        let w = utf8_width(s[0]);
        assert(chars_for_bytes(s.drop_first(), a - w) is Some);
        assert(chars_for_bytes(s.drop_first(), b - w) is Some);
        if a - w < 0 {
            assert(chars_for_bytes(s.drop_first(), a - w) is None);
        }
        lemma_chars_for_bytes_mono(s.drop_first(), a - w, b - w);
    }
}

fn named_color_exec(s: &str) -> (r: Option<Color>)
    ensures
        r == named_color(s@),
{
    if false {
        None
    } else if str_is(s, "black") {
        Some(Color::Black)
    } else if str_is(s, "red") {
        Some(Color::Red)
    } else if str_is(s, "green") {
        Some(Color::Green)
    } else if str_is(s, "yellow") {
        Some(Color::Yellow)
    } else if str_is(s, "blue") {
        Some(Color::Blue)
    } else if str_is(s, "magenta") {
        Some(Color::Magenta)
    } else if str_is(s, "purple") {
        Some(Color::Magenta)
    } else if str_is(s, "cyan") {
        Some(Color::Cyan)
    } else if str_is(s, "gray") {
        Some(Color::Gray)
    } else if str_is(s, "grey") {
        Some(Color::Gray)
    } else if str_is(s, "dark_gray") {
        Some(Color::DarkGray)
    } else if str_is(s, "darkgray") {
        Some(Color::DarkGray)
    } else if str_is(s, "dark_grey") {
        Some(Color::DarkGray)
    } else if str_is(s, "darkgrey") {
        Some(Color::DarkGray)
    } else if str_is(s, "light_red") {
        Some(Color::LightRed)
    } else if str_is(s, "lightred") {
        Some(Color::LightRed)
    } else if str_is(s, "light_green") {
        Some(Color::LightGreen)
    } else if str_is(s, "lightgreen") {
        Some(Color::LightGreen)
    } else if str_is(s, "light_yellow") {
        Some(Color::LightYellow)
    } else if str_is(s, "lightyellow") {
        Some(Color::LightYellow)
    } else if str_is(s, "light_blue") {
        Some(Color::LightBlue)
    } else if str_is(s, "lightblue") {
        Some(Color::LightBlue)
    } else if str_is(s, "light_magenta") {
        Some(Color::LightMagenta)
    } else if str_is(s, "lightmagenta") {
        Some(Color::LightMagenta)
    } else if str_is(s, "light_cyan") {
        Some(Color::LightCyan)
    } else if str_is(s, "lightcyan") {
        Some(Color::LightCyan)
    } else if str_is(s, "white") {
        Some(Color::White)
    } else if str_is(s, "reset") {
        Some(Color::Reset)
    } else {
        let cs = chars_of(s);
        match parse_u8_exec(cs.as_slice(), 10) {
            Some(n) => Some(Color::Indexed(n)),
            None => None,
        }
    }
}

/// Reads a colour setting (see [`color_of`]).
pub fn parse_color(s: &str) -> (r: Option<Color>)
    requires
        color_readable(s@),
    ensures
        r == color_of(s@),
{
    let t0 = trim_chars(&chars_of(s));
    let mut t: Vec<char> = Vec::new();
    let mut i: usize = 0;
    while i < t0.len()
        invariant
            i <= t0@.len(),
            t@ == t0@.take(i as int).map_values(|c: char| ascii_lower(c)),
        decreases t0@.len() - i,
    {
        t.push(ascii_lower_exec(t0[i]));
        assert(t0@.take(i + 1) =~= t0@.take(i as int).push(t0@[i as int]));
        assert(t@ =~= t0@.take(i + 1).map_values(|c: char| ascii_lower(c)));
        i = i + 1;
    }
    assert(t0@.take(t0@.len() as int) =~= t0@);
    assert(t@ == normalized(s@));
    if t.len() > 0 && t[0] == '#' {
        let mut h: Vec<char> = Vec::new();
        let mut j: usize = 1;
        while j < t.len()
            invariant
                1 <= j <= t@.len(),
                h@ == t@.subrange(1, j as int),
            decreases t@.len() - j,
        {
            h.push(t[j]);
            assert(h@ =~= t@.subrange(1, j + 1));
            j = j + 1;
        }
        assert(h@ =~= t@.drop_first());
        hex_color_exec(&h)
    } else {
        let text = string_of(t.as_slice());
        named_color_exec(text.as_str())
    }
}

// ── The theme ────────────────────────────────────────────────────────────────

/// Colours for every role of the interface.
#[derive(Clone, Copy, Debug)]
pub struct Theme {
    pub method_get: Color,
    pub method_post: Color,
    pub method_put: Color,
    pub method_delete: Color,
    pub method_patch: Color,
    pub method_other: Color,
    pub status_2xx: Color,
    pub status_3xx: Color,
    pub status_4xx: Color,
    pub status_5xx: Color,
    pub status_other: Color,
    pub title: Color,
    pub selected_bg: Color,
    pub border_focused: Color,
    pub border_unfocused: Color,
    pub border_active: Color,
    pub border_editing: Color,
    pub text_primary: Color,
    pub text_secondary: Color,
    pub text_url: Color,
    pub text_key: Color,
    pub text_tag: Color,
    pub text_accent: Color,
    pub indicator_loading: Color,
    pub indicator_success: Color,
    pub indicator_error: Color,
    pub help_key: Color,
    pub help_desc: Color,
    pub error: Color,
    pub json_string: Color,
    pub json_number: Color,
    pub json_bool: Color,
    pub json_null: Color,
    pub md_h1: Color,
    pub md_h2: Color,
    pub md_code: Color,
    pub md_quote: Color,
    pub param_required: Color,
    pub param_location: Color,
    pub param_type: Color,
    pub param_example: Color,
    pub cursor_block_fg: Color,
    pub cursor_block_bg: Color,
    pub cursor_bar: Color,
    pub filter_active: Color,
    pub filter_inactive: Color,
}

/// Whether a colour override can be read to the end.
pub open spec fn setting_ok(o: Option<String>) -> bool {
    match o {
        Some(s) => color_readable(s@),
        None => true,
    }
}

/// The colour of a role: the override when it names one, else the default.
pub open spec fn setting(o: Option<String>, default: Color) -> Color {
    match o {
        Some(s) => match color_of(s@) {
            Some(c) => c,
            None => default,
        },
        None => default,
    }
}

/// Whether every override of the configuration can be read to the end.
pub open spec fn theme_config_ok(cfg: ThemeConfig) -> bool {
    &&& setting_ok(cfg.method_get)
    &&& setting_ok(cfg.method_post)
    &&& setting_ok(cfg.method_put)
    &&& setting_ok(cfg.method_delete)
    &&& setting_ok(cfg.method_patch)
    &&& setting_ok(cfg.method_other)
    &&& setting_ok(cfg.status_2xx)
    &&& setting_ok(cfg.status_3xx)
    &&& setting_ok(cfg.status_4xx)
    &&& setting_ok(cfg.status_5xx)
    &&& setting_ok(cfg.status_other)
    &&& setting_ok(cfg.title)
    &&& setting_ok(cfg.selected_bg)
    &&& setting_ok(cfg.border_focused)
    &&& setting_ok(cfg.border_unfocused)
    &&& setting_ok(cfg.border_active)
    &&& setting_ok(cfg.border_editing)
    &&& setting_ok(cfg.text_primary)
    &&& setting_ok(cfg.text_secondary)
    &&& setting_ok(cfg.text_url)
    &&& setting_ok(cfg.text_key)
    &&& setting_ok(cfg.text_tag)
    &&& setting_ok(cfg.text_accent)
    &&& setting_ok(cfg.indicator_loading)
    &&& setting_ok(cfg.indicator_success)
    &&& setting_ok(cfg.indicator_error)
    &&& setting_ok(cfg.help_key)
    &&& setting_ok(cfg.help_desc)
    &&& setting_ok(cfg.error)
    &&& setting_ok(cfg.json_string)
    &&& setting_ok(cfg.json_number)
    &&& setting_ok(cfg.json_bool)
    &&& setting_ok(cfg.json_null)
    &&& setting_ok(cfg.md_h1)
    &&& setting_ok(cfg.md_h2)
    &&& setting_ok(cfg.md_code)
    &&& setting_ok(cfg.md_quote)
    &&& setting_ok(cfg.param_required)
    &&& setting_ok(cfg.param_location)
    &&& setting_ok(cfg.param_type)
    &&& setting_ok(cfg.param_example)
    &&& setting_ok(cfg.cursor_block_fg)
    &&& setting_ok(cfg.cursor_block_bg)
    &&& setting_ok(cfg.cursor_bar)
    &&& setting_ok(cfg.filter_active)
    &&& setting_ok(cfg.filter_inactive)
}

/// The built-in colours of every role.
pub open spec fn default_theme() -> Theme {
    Theme {
        method_get: Color::Green,
        method_post: Color::Yellow,
        method_put: Color::Blue,
        method_delete: Color::Red,
        method_patch: Color::Cyan,
        method_other: Color::White,
        status_2xx: Color::Green,
        status_3xx: Color::Yellow,
        status_4xx: Color::Red,
        status_5xx: Color::Magenta,
        status_other: Color::White,
        title: Color::Cyan,
        selected_bg: Color::DarkGray,
        border_focused: Color::Cyan,
        border_unfocused: Color::DarkGray,
        border_active: Color::Yellow,
        border_editing: Color::Green,
        text_primary: Color::White,
        text_secondary: Color::DarkGray,
        text_url: Color::Blue,
        text_key: Color::Cyan,
        text_tag: Color::Magenta,
        text_accent: Color::Yellow,
        indicator_loading: Color::Yellow,
        indicator_success: Color::Green,
        indicator_error: Color::Red,
        help_key: Color::Yellow,
        help_desc: Color::DarkGray,
        error: Color::Red,
        json_string: Color::Green,
        json_number: Color::Yellow,
        json_bool: Color::Magenta,
        json_null: Color::DarkGray,
        md_h1: Color::Yellow,
        md_h2: Color::Cyan,
        md_code: Color::Green,
        md_quote: Color::DarkGray,
        param_required: Color::Red,
        param_location: Color::Blue,
        param_type: Color::Green,
        param_example: Color::Cyan,
        cursor_block_fg: Color::Black,
        cursor_block_bg: Color::White,
        cursor_bar: Color::Green,
        filter_active: Color::Yellow,
        filter_inactive: Color::Cyan,
    }
}

/// A theme configuration that overrides nothing.
pub open spec fn blank_theme_config() -> ThemeConfig {
    ThemeConfig {
        method_get: None,
        method_post: None,
        method_put: None,
        method_delete: None,
        method_patch: None,
        method_other: None,
        status_2xx: None,
        status_3xx: None,
        status_4xx: None,
        status_5xx: None,
        status_other: None,
        title: None,
        selected_bg: None,
        border_focused: None,
        border_unfocused: None,
        border_active: None,
        border_editing: None,
        text_primary: None,
        text_secondary: None,
        text_url: None,
        text_key: None,
        text_tag: None,
        text_accent: None,
        indicator_loading: None,
        indicator_success: None,
        indicator_error: None,
        help_key: None,
        help_desc: None,
        error: None,
        json_string: None,
        json_number: None,
        json_bool: None,
        json_null: None,
        md_h1: None,
        md_h2: None,
        md_code: None,
        md_quote: None,
        param_required: None,
        param_location: None,
        param_type: None,
        param_example: None,
        cursor_block_fg: None,
        cursor_block_bg: None,
        cursor_bar: None,
        filter_active: None,
        filter_inactive: None,
    }
}

/// The theme a configuration gives: each role takes its override when that names a
/// colour, else its built-in default.
pub open spec fn theme_for(cfg: ThemeConfig) -> Theme {
    Theme {
        method_get: setting(cfg.method_get, Color::Green),
        method_post: setting(cfg.method_post, Color::Yellow),
        method_put: setting(cfg.method_put, Color::Blue),
        method_delete: setting(cfg.method_delete, Color::Red),
        method_patch: setting(cfg.method_patch, Color::Cyan),
        method_other: setting(cfg.method_other, Color::White),
        status_2xx: setting(cfg.status_2xx, Color::Green),
        status_3xx: setting(cfg.status_3xx, Color::Yellow),
        status_4xx: setting(cfg.status_4xx, Color::Red),
        status_5xx: setting(cfg.status_5xx, Color::Magenta),
        status_other: setting(cfg.status_other, Color::White),
        title: setting(cfg.title, Color::Cyan),
        selected_bg: setting(cfg.selected_bg, Color::DarkGray),
        border_focused: setting(cfg.border_focused, Color::Cyan),
        border_unfocused: setting(cfg.border_unfocused, Color::DarkGray),
        border_active: setting(cfg.border_active, Color::Yellow),
        border_editing: setting(cfg.border_editing, Color::Green),
        text_primary: setting(cfg.text_primary, Color::White),
        text_secondary: setting(cfg.text_secondary, Color::DarkGray),
        text_url: setting(cfg.text_url, Color::Blue),
        text_key: setting(cfg.text_key, Color::Cyan),
        text_tag: setting(cfg.text_tag, Color::Magenta),
        text_accent: setting(cfg.text_accent, Color::Yellow),
        indicator_loading: setting(cfg.indicator_loading, Color::Yellow),
        indicator_success: setting(cfg.indicator_success, Color::Green),
        indicator_error: setting(cfg.indicator_error, Color::Red),
        help_key: setting(cfg.help_key, Color::Yellow),
        help_desc: setting(cfg.help_desc, Color::DarkGray),
        error: setting(cfg.error, Color::Red),
        json_string: setting(cfg.json_string, Color::Green),
        json_number: setting(cfg.json_number, Color::Yellow),
        json_bool: setting(cfg.json_bool, Color::Magenta),
        json_null: setting(cfg.json_null, Color::DarkGray),
        md_h1: setting(cfg.md_h1, Color::Yellow),
        md_h2: setting(cfg.md_h2, Color::Cyan),
        md_code: setting(cfg.md_code, Color::Green),
        md_quote: setting(cfg.md_quote, Color::DarkGray),
        param_required: setting(cfg.param_required, Color::Red),
        param_location: setting(cfg.param_location, Color::Blue),
        param_type: setting(cfg.param_type, Color::Green),
        param_example: setting(cfg.param_example, Color::Cyan),
        cursor_block_fg: setting(cfg.cursor_block_fg, Color::Black),
        cursor_block_bg: setting(cfg.cursor_block_bg, Color::White),
        cursor_bar: setting(cfg.cursor_bar, Color::Green),
        filter_active: setting(cfg.filter_active, Color::Yellow),
        filter_inactive: setting(cfg.filter_inactive, Color::Cyan),
    }
}

fn resolve(o: &Option<String>, default: Color) -> (c: Color)
    requires
        setting_ok(*o),
    ensures
        c == setting(*o, default),
{
    match o {
        Some(s) => match parse_color(s.as_str()) {
            Some(c) => c,
            None => default,
        },
        None => default,
    }
}

impl Theme {
    /// Colour of a method badge: GET, POST, PUT, DELETE and PATCH have their own,
    /// anything else the colour for other methods.
    pub open spec fn method_color_of(self, method: Seq<char>) -> Color {
        if method == "GET"@ {
            self.method_get
        } else if method == "POST"@ {
            self.method_post
        } else if method == "PUT"@ {
            self.method_put
        } else if method == "DELETE"@ {
            self.method_delete
        } else if method == "PATCH"@ {
            self.method_patch
        } else {
            self.method_other
        }
    }

    /// Colour of a status code by its hundred: 2xx, 3xx, 4xx, 5xx, anything else.
    pub open spec fn status_color_of(self, status: int) -> Color {
        if 200 <= status <= 299 {
            self.status_2xx
        } else if 300 <= status <= 399 {
            self.status_3xx
        } else if 400 <= status <= 499 {
            self.status_4xx
        } else if 500 <= status <= 599 {
            self.status_5xx
        } else {
            self.status_other
        }
    }

    /// The theme of a configuration: each role takes its override when that names a
    /// colour, else its built-in default.
    pub fn from_config(cfg: &ThemeConfig) -> (t: Self)
        requires
            theme_config_ok(*cfg),
        ensures
            t == theme_for(*cfg),
    {
        Theme {
            method_get: resolve(&cfg.method_get, Color::Green),
            method_post: resolve(&cfg.method_post, Color::Yellow),
            method_put: resolve(&cfg.method_put, Color::Blue),
            method_delete: resolve(&cfg.method_delete, Color::Red),
            method_patch: resolve(&cfg.method_patch, Color::Cyan),
            method_other: resolve(&cfg.method_other, Color::White),
            status_2xx: resolve(&cfg.status_2xx, Color::Green),
            status_3xx: resolve(&cfg.status_3xx, Color::Yellow),
            status_4xx: resolve(&cfg.status_4xx, Color::Red),
            status_5xx: resolve(&cfg.status_5xx, Color::Magenta),
            status_other: resolve(&cfg.status_other, Color::White),
            title: resolve(&cfg.title, Color::Cyan),
            selected_bg: resolve(&cfg.selected_bg, Color::DarkGray),
            border_focused: resolve(&cfg.border_focused, Color::Cyan),
            border_unfocused: resolve(&cfg.border_unfocused, Color::DarkGray),
            border_active: resolve(&cfg.border_active, Color::Yellow),
            border_editing: resolve(&cfg.border_editing, Color::Green),
            text_primary: resolve(&cfg.text_primary, Color::White),
            text_secondary: resolve(&cfg.text_secondary, Color::DarkGray),
            text_url: resolve(&cfg.text_url, Color::Blue),
            text_key: resolve(&cfg.text_key, Color::Cyan),
            text_tag: resolve(&cfg.text_tag, Color::Magenta),
            text_accent: resolve(&cfg.text_accent, Color::Yellow),
            indicator_loading: resolve(&cfg.indicator_loading, Color::Yellow),
            indicator_success: resolve(&cfg.indicator_success, Color::Green),
            indicator_error: resolve(&cfg.indicator_error, Color::Red),
            help_key: resolve(&cfg.help_key, Color::Yellow),
            help_desc: resolve(&cfg.help_desc, Color::DarkGray),
            error: resolve(&cfg.error, Color::Red),
            json_string: resolve(&cfg.json_string, Color::Green),
            json_number: resolve(&cfg.json_number, Color::Yellow),
            json_bool: resolve(&cfg.json_bool, Color::Magenta),
            json_null: resolve(&cfg.json_null, Color::DarkGray),
            md_h1: resolve(&cfg.md_h1, Color::Yellow),
            md_h2: resolve(&cfg.md_h2, Color::Cyan),
            md_code: resolve(&cfg.md_code, Color::Green),
            md_quote: resolve(&cfg.md_quote, Color::DarkGray),
            param_required: resolve(&cfg.param_required, Color::Red),
            param_location: resolve(&cfg.param_location, Color::Blue),
            param_type: resolve(&cfg.param_type, Color::Green),
            param_example: resolve(&cfg.param_example, Color::Cyan),
            cursor_block_fg: resolve(&cfg.cursor_block_fg, Color::Black),
            cursor_block_bg: resolve(&cfg.cursor_block_bg, Color::White),
            cursor_bar: resolve(&cfg.cursor_bar, Color::Green),
            filter_active: resolve(&cfg.filter_active, Color::Yellow),
            filter_inactive: resolve(&cfg.filter_inactive, Color::Cyan),
        }
    }

    /// Colour of a method badge: GET, POST, PUT, DELETE and PATCH have their own,
    /// anything else the colour for other methods.
    pub fn method_color(&self, method: &str) -> (c: Color)
        ensures
            c == self.method_color_of(method@),
    {
        if str_is(method, "GET") {
            self.method_get
        } else if str_is(method, "POST") {
            self.method_post
        } else if str_is(method, "PUT") {
            self.method_put
        } else if str_is(method, "DELETE") {
            self.method_delete
        } else if str_is(method, "PATCH") {
            self.method_patch
        } else {
            self.method_other
        }
    }

    /// Colour of a status code by its hundred: 2xx, 3xx, 4xx, 5xx, anything else.
    pub fn status_color(&self, status: u16) -> (c: Color)
        ensures
            c == self.status_color_of(status as int),
    {
        if 200 <= status && status <= 299 {
            self.status_2xx
        } else if 300 <= status && status <= 399 {
            self.status_3xx
        } else if 400 <= status && status <= 499 {
            self.status_4xx
        } else if 500 <= status && status <= 599 {
            self.status_5xx
        } else {
            self.status_other
        }
    }
}

/// Whether reading `#` followed by `h` would slice a character (see
/// [`hex_splits_char`]).
fn hex_splits_char_exec(h: &Vec<char>) -> (b: bool)
    ensures
        b == hex_splits_char(h@),
{
    if !byte_len_is(h.as_slice(), 6) {
        return false;
    }
    match chars_for_bytes_exec(h.as_slice(), 2) {
        None => true,
        Some(k0) => {
            proof {
                lemma_chars_for_bytes_bound(h@, 2);
            }
            let first = parse_u8_exec(&h.as_slice()[0..k0], 16);
            assert(h@.subrange(0, k0 as int) =~= h@.take(k0 as int));
            first.is_some() && chars_for_bytes_exec(h.as_slice(), 4).is_none()
        },
    }
}

/// Whether a colour setting can be read to the end (see [`color_readable`]).
pub fn color_is_readable(s: &str) -> (b: bool)
    ensures
        b == color_readable(s@),
{
    let t0 = trim_chars(&chars_of(s));
    let mut t: Vec<char> = Vec::new();
    let mut i: usize = 0;
    while i < t0.len()
        invariant
            i <= t0@.len(),
            t@ == t0@.take(i as int).map_values(|c: char| ascii_lower(c)),
        decreases t0@.len() - i,
    {
        t.push(ascii_lower_exec(t0[i]));
        assert(t0@.take(i + 1) =~= t0@.take(i as int).push(t0@[i as int]));
        assert(t@ =~= t0@.take(i + 1).map_values(|c: char| ascii_lower(c)));
        i = i + 1;
    }
    assert(t0@.take(t0@.len() as int) =~= t0@);
    if t.len() > 0 && t[0] == '#' {
        let mut h: Vec<char> = Vec::new();
        let mut j: usize = 1;
        while j < t.len()
            invariant
                1 <= j <= t@.len(),
                h@ == t@.subrange(1, j as int),
            decreases t@.len() - j,
        {
            h.push(t[j]);
            assert(h@ =~= t@.subrange(1, j + 1));
            j = j + 1;
        }
        assert(h@ =~= t@.drop_first());
        !hex_splits_char_exec(&h)
    } else {
        true
    }
}

fn setting_readable(o: &Option<String>) -> (b: bool)
    ensures
        b == setting_ok(*o),
{
    match o {
        Some(s) => color_is_readable(s.as_str()),
        None => true,
    }
}

/// Whether every override of the configuration can be read to the end (see
/// [`theme_config_ok`]).
pub fn theme_config_readable(cfg: &ThemeConfig) -> (b: bool)
    ensures
        b == theme_config_ok(*cfg),
{
    setting_readable(&cfg.method_get) &&
        setting_readable(&cfg.method_post) &&
        setting_readable(&cfg.method_put) &&
        setting_readable(&cfg.method_delete) &&
        setting_readable(&cfg.method_patch) &&
        setting_readable(&cfg.method_other) &&
        setting_readable(&cfg.status_2xx) &&
        setting_readable(&cfg.status_3xx) &&
        setting_readable(&cfg.status_4xx) &&
        setting_readable(&cfg.status_5xx) &&
        setting_readable(&cfg.status_other) &&
        setting_readable(&cfg.title) &&
        setting_readable(&cfg.selected_bg) &&
        setting_readable(&cfg.border_focused) &&
        setting_readable(&cfg.border_unfocused) &&
        setting_readable(&cfg.border_active) &&
        setting_readable(&cfg.border_editing) &&
        setting_readable(&cfg.text_primary) &&
        setting_readable(&cfg.text_secondary) &&
        setting_readable(&cfg.text_url) &&
        setting_readable(&cfg.text_key) &&
        setting_readable(&cfg.text_tag) &&
        setting_readable(&cfg.text_accent) &&
        setting_readable(&cfg.indicator_loading) &&
        setting_readable(&cfg.indicator_success) &&
        setting_readable(&cfg.indicator_error) &&
        setting_readable(&cfg.help_key) &&
        setting_readable(&cfg.help_desc) &&
        setting_readable(&cfg.error) &&
        setting_readable(&cfg.json_string) &&
        setting_readable(&cfg.json_number) &&
        setting_readable(&cfg.json_bool) &&
        setting_readable(&cfg.json_null) &&
        setting_readable(&cfg.md_h1) &&
        setting_readable(&cfg.md_h2) &&
        setting_readable(&cfg.md_code) &&
        setting_readable(&cfg.md_quote) &&
        setting_readable(&cfg.param_required) &&
        setting_readable(&cfg.param_location) &&
        setting_readable(&cfg.param_type) &&
        setting_readable(&cfg.param_example) &&
        setting_readable(&cfg.cursor_block_fg) &&
        setting_readable(&cfg.cursor_block_bg) &&
        setting_readable(&cfg.cursor_bar) &&
        setting_readable(&cfg.filter_active) &&
        setting_readable(&cfg.filter_inactive)
}

} // verus!
