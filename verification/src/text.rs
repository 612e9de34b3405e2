//! Character-level text utilities with their specifications.

use vstd::prelude::*;
use vstd::std_specs::iter::IteratorSpec;

verus! {

/// `String::push`: appends one character.
#[verifier::external_body]
pub(crate) fn push_char(s: &mut String, c: char)
    ensures
        final(s)@ == old(s)@.push(c),
{
    s.push(c);
}

/// Removes the last character, if any (what `String::pop` does to the text).
pub fn pop_char(s: &mut String)
    ensures
        final(s)@ == if old(s)@.len() > 0 {
            old(s)@.drop_last()
        } else {
            old(s)@
        },
{
    let cs = chars_of(s.as_str());
    if cs.len() > 0 {
        let mut i: usize = 0;
        let mut t = String::new();
        let last = cs.len() - 1;
        while i < last
            invariant
                cs@.len() > 0,
                last == cs@.len() - 1,
                i <= last,
                t@ == cs@.take(i as int),
            decreases cs@.len() - i,
        {
            push_char(&mut t, cs[i]);
            assert(cs@.take(i + 1) =~= cs@.take(i as int).push(cs@[i as int]));
            i = i + 1;
        }
        assert(cs@.take(i as int) =~= cs@.drop_last());
        *s = t;
    }
}

/// The characters of `s`, in order.
pub fn chars_of(s: &str) -> (v: Vec<char>)
    ensures
        v@ == s@,
{
    broadcast use vstd::string::group_string_axioms;

    let mut v: Vec<char> = Vec::new();
    for c in iter: s.chars()
        invariant
            iter.seq() == s@,
            v@ == s@.take(iter.index() as int),
    {
        v.push(c);
    }
    assert(v@ =~= s@);
    v
}

/// A string holding exactly the characters of `v`.
pub fn string_of(v: &[char]) -> (s: String)
    ensures
        s@ == v@,
{
    let mut s = String::new();
    let mut i: usize = 0;
    while i < v.len()
        invariant
            i <= v@.len(),
            s@ == v@.take(i as int),
        decreases v@.len() - i,
    {
        push_char(&mut s, v[i]);
        assert(v@.take(i as int).push(v@[i as int]) =~= v@.take(i + 1));
        i = i + 1;
    }
    assert(v@.take(v@.len() as int) =~= v@);
    s
}

// ── Trimming ─────────────────────────────────────────────────────────────────

/// `s` without the occurrences of `c` at its end.
pub open spec fn trim_end_char(s: Seq<char>, c: char) -> Seq<char>
    decreases s.len(),
{
    if s.len() > 0 && s.last() == c {
        trim_end_char(s.drop_last(), c)
    } else {
        s
    }
}

/// `s` without the occurrences of `c` at its start.
pub open spec fn trim_start_char(s: Seq<char>, c: char) -> Seq<char>
    decreases s.len(),
{
    if s.len() > 0 && s[0] == c {
        trim_start_char(s.drop_first(), c)
    } else {
        s
    }
}

pub fn trim_end_char_of(s: &Vec<char>, c: char) -> (r: Vec<char>)
    ensures
        r@ == trim_end_char(s@, c),
{
    let mut n = s.len();
    assert(s@.take(n as int) =~= s@);
    while n > 0 && s[n - 1] == c
        invariant
            n <= s@.len(),
            trim_end_char(s@, c) == trim_end_char(s@.take(n as int), c),
        decreases n,
    {
        assert(s@.take(n as int).drop_last() =~= s@.take(n - 1));
        n = n - 1;
    }
    let mut r: Vec<char> = Vec::new();
    let mut i: usize = 0;
    while i < n
        invariant
            n <= s@.len(),
            i <= n,
            r@ == s@.take(i as int),
        decreases n - i,
    {
        r.push(s[i]);
        assert(s@.take(i + 1) =~= s@.take(i as int).push(s@[i as int]));
        i = i + 1;
    }
    r
}

pub fn trim_start_char_of(s: &Vec<char>, c: char) -> (r: Vec<char>)
    ensures
        r@ == trim_start_char(s@, c),
{
    let mut k: usize = 0;
    assert(s@.skip(0) =~= s@);
    while k < s.len() && s[k] == c
        invariant
            k <= s@.len(),
            trim_start_char(s@, c) == trim_start_char(s@.skip(k as int), c),
        decreases s@.len() - k,
    {
        assert(s@.skip(k as int).drop_first() =~= s@.skip(k + 1));
        k = k + 1;
    }
    let mut r: Vec<char> = Vec::new();
    let mut i = k;
    while i < s.len()
        invariant
            k <= i <= s@.len(),
            r@ == s@.subrange(k as int, i as int),
        decreases s@.len() - i,
    {
        r.push(s[i]);
        assert(s@.subrange(k as int, i + 1) =~= s@.subrange(k as int, i as int).push(s@[i as int]));
        i = i + 1;
    }
    assert(s@.subrange(k as int, s@.len() as int) =~= s@.skip(k as int));
    r
}

// ── Searching and replacing ──────────────────────────────────────────────────

/// Whether `p` occurs in `s` at position `i`.
pub open spec fn occurs_at(s: Seq<char>, p: Seq<char>, i: int) -> bool {
    0 <= i && i + p.len() <= s.len() && s.subrange(i, i + p.len()) == p
}

/// Whether `p` occurs anywhere in `s` (the empty pattern always does).
pub open spec fn contains(s: Seq<char>, p: Seq<char>) -> bool {
    exists|i: int| occurs_at(s, p, i)
}

/// `s` with each occurrence of the non-empty pattern `p` replaced by `r`, scanning from
/// the left and never overlapping (as `str::replace` does).
pub open spec fn replace_all(s: Seq<char>, p: Seq<char>, r: Seq<char>) -> Seq<char>
    decreases s.len(),
{
    if p.len() == 0 || s.len() < p.len() {
        s
    } else if s.take(p.len() as int) == p {
        r + replace_all(s.skip(p.len() as int), p, r)
    } else {
        seq![s[0]] + replace_all(s.drop_first(), p, r)
    }
}

/// Whether `p` occurs in `s` at position `i`.
pub fn occurs_at_exec(s: &Vec<char>, p: &Vec<char>, i: usize) -> (b: bool)
    ensures
        b == occurs_at(s@, p@, i as int),
{
    if i > s.len() || p.len() > s.len() - i {
        return false;
    }
    let mut k: usize = 0;
    while k < p.len()
        invariant
            i + p@.len() <= s@.len(),
            s@.len() <= usize::MAX,
            k <= p@.len(),
            forall|q: int| 0 <= q < k ==> s@[i + q] == p@[q],
        decreases p@.len() - k,
    {
        if s[i + k] != p[k] {
            assert(s@.subrange(i as int, i + p@.len())[k as int] != p@[k as int]);
            return false;
        }
        k = k + 1;
    }
    assert(s@.subrange(i as int, i + p@.len()) =~= p@);
    true
}

/// Whether `p` occurs in `s`.
pub fn contains_exec(s: &Vec<char>, p: &Vec<char>) -> (b: bool)
    ensures
        b == contains(s@, p@),
{
    let mut i: usize = 0;
    while i < s.len()
        invariant
            i <= s@.len(),
            forall|q: int| 0 <= q < i ==> !occurs_at(s@, p@, q),
        decreases s@.len() - i,
    {
        if occurs_at_exec(s, p, i) {
            return true;
        }
        i = i + 1;
    }
    if occurs_at_exec(s, p, i) {
        return true;
    }
    assert forall|q: int| !occurs_at(s@, p@, q) by {
        if 0 <= q <= i {
        } else {
            assert(!(0 <= q && q + p@.len() <= s@.len()));
        }
    }
    false
}

proof fn lemma_occurs_take(s: Seq<char>, p: Seq<char>, i: int)
    requires
        0 <= i <= s.len(),
        p.len() <= s.len() - i,
    ensures
        occurs_at(s, p, i) == (s.skip(i).take(p.len() as int) == p),
{
    assert(s.skip(i).take(p.len() as int) =~= s.subrange(i, i + p.len()));
}

/// `s` with each occurrence of the non-empty pattern `p` replaced by `r`.
pub fn replace_all_exec(s: &Vec<char>, p: &Vec<char>, r: &Vec<char>) -> (out: Vec<char>)
    requires
        p@.len() > 0,
    ensures
        out@ == replace_all(s@, p@, r@),
{
    let mut out: Vec<char> = Vec::new();
    let mut i: usize = 0;
    assert(s@.skip(0) =~= s@);
    while i < s.len()
        invariant
            p@.len() > 0,
            i <= s@.len(),
            out@ + replace_all(s@.skip(i as int), p@, r@) == replace_all(s@, p@, r@),
        decreases s@.len() - i,
    {
        let ghost rest = s@.skip(i as int);
        if p.len() <= s.len() - i && occurs_at_exec(s, p, i) {
            proof {
                lemma_occurs_take(s@, p@, i as int);
                assert(rest.skip(p@.len() as int) =~= s@.skip(i + p@.len()));
            }
            let mut k: usize = 0;
            let ghost before = out@;
            while k < r.len()
                invariant
                    k <= r@.len(),
                    out@ == before + r@.take(k as int),
                decreases r@.len() - k,
            {
                out.push(r[k]);
                assert(r@.take(k + 1) =~= r@.take(k as int).push(r@[k as int]));
                k = k + 1;
            }
            assert(r@.take(r@.len() as int) =~= r@);
            assert(before + (r@ + replace_all(s@.skip(i + p@.len()), p@, r@)) =~= out@ + replace_all(s@.skip(i + p@.len()), p@, r@));
            i = i + p.len();
        } else {
            proof {
                if p@.len() <= s@.len() - i {
                    lemma_occurs_take(s@, p@, i as int);
                }
                assert(rest.drop_first() =~= s@.skip(i + 1));
                assert(rest[0] == s@[i as int]);
            }
            let ghost before = out@;
            out.push(s[i]);
            assert(before + (seq![s@[i as int]] + replace_all(s@.skip(i + 1), p@, r@)) =~= out@ + replace_all(s@.skip(i + 1), p@, r@));
            i = i + 1;
        }
    }
    assert(out@ + replace_all(s@.skip(i as int), p@, r@) == out@);
    assert(out@ =~= replace_all(s@, p@, r@));
    out
}

/// Position of the first occurrence of `p` in `s`.
pub open spec fn find(s: Seq<char>, p: Seq<char>) -> Option<int>
    decreases s.len(),
{
    if occurs_at(s, p, 0) {
        Some(0)
    } else if s.len() == 0 {
        None
    } else {
        match find(s.drop_first(), p) {
            Some(i) => Some(i + 1),
            None => None,
        }
    }
}

/// Whether `s` begins with `p`.
pub open spec fn starts_with(s: Seq<char>, p: Seq<char>) -> bool {
    p.len() <= s.len() && s.take(p.len() as int) == p
}

proof fn lemma_occurs_skip(s: Seq<char>, p: Seq<char>, i: int)
    requires
        0 <= i <= s.len(),
    ensures
        occurs_at(s.skip(i), p, 0) == occurs_at(s, p, i),
{
    if occurs_at(s, p, i) {
        assert(s.skip(i).subrange(0, p.len() as int) =~= s.subrange(i, i + p.len()));
    }
    if occurs_at(s.skip(i), p, 0) {
        assert(s.skip(i).subrange(0, p.len() as int) =~= s.subrange(i, i + p.len()));
    }
}

/// Position of the first occurrence of `p` in `s` (see [`find`]).
pub fn find_exec(s: &Vec<char>, p: &Vec<char>) -> (r: Option<usize>)
    ensures
        match r {
            Some(i) => find(s@, p@) == Some(i as int),
            None => find(s@, p@) is None,
        },
{
    let mut i: usize = 0;
    assert(s@.skip(0) =~= s@);
    while i < s.len()
        invariant
            i <= s@.len(),
            find(s@, p@) == match find(s@.skip(i as int), p@) {
                Some(k) => Some(k + i),
                None => None,
            },
        decreases s@.len() - i,
    {
        proof {
            lemma_occurs_skip(s@, p@, i as int);
        }
        if occurs_at_exec(s, p, i) {
            return Some(i);
        }
        assert(s@.skip(i as int).drop_first() =~= s@.skip(i + 1));
        i = i + 1;
    }
    proof {
        lemma_occurs_skip(s@, p@, i as int);
    }
    if occurs_at_exec(s, p, i) {
        return Some(i);
    }
    None
}

/// Whether `s` begins with `p`.
pub fn starts_with_exec(s: &str, p: &str) -> (b: bool)
    ensures
        b == starts_with(s@, p@),
{
    let a = chars_of(s);
    let q = chars_of(p);
    let r = occurs_at_exec(&a, &q, 0);
    assert(q@.len() <= a@.len() ==> a@.subrange(0, q@.len() as int) =~= a@.take(q@.len() as int));
    r
}

// ── Lines ────────────────────────────────────────────────────────────────────

/// The pieces of `s` between line feeds (one more than there are line feeds).
pub open spec fn pieces(s: Seq<char>) -> Seq<Seq<char>>
    decreases s.len(),
{
    if s.len() == 0 {
        seq![Seq::empty()]
    } else {
        let p = pieces(s.drop_last());
        if s.last() == '\n' {
            p.push(Seq::empty())
        } else {
            p.update(p.len() - 1, p.last().push(s.last()))
        }
    }
}

/// `s` without one trailing carriage return.
pub open spec fn strip_cr(s: Seq<char>) -> Seq<char> {
    if s.len() > 0 && s.last() == '\r' {
        s.drop_last()
    } else {
        s
    }
}

/// The lines of `s` as `str::lines` gives them: split at line feeds, a carriage
/// return before a line feed dropped, and no empty line after a final line feed.
pub open spec fn lines_of(s: Seq<char>) -> Seq<Seq<char>> {
    let p = pieces(s);
    if p.last().len() == 0 {
        p.drop_last().map_values(|x: Seq<char>| strip_cr(x))
    } else {
        p.drop_last().map_values(|x: Seq<char>| strip_cr(x)).push(p.last())
    }
}

pub proof fn lemma_pieces_nonempty(s: Seq<char>)
    ensures
        pieces(s).len() >= 1,
    decreases s.len(),
{
    if s.len() > 0 {
        lemma_pieces_nonempty(s.drop_last());
    }
}

/// The lines of `s` (see [`lines_of`]).
pub fn lines_exec(s: &str) -> (r: Vec<Vec<char>>)
    ensures
        r@.map_values(|l: Vec<char>| l@) == lines_of(s@),
{
    let cs = chars_of(s);
    let mut done: Vec<Vec<char>> = Vec::new();
    let mut cur: Vec<char> = Vec::new();
    let mut i: usize = 0;
    proof {
        assert(cs@.take(0) =~= Seq::<char>::empty());
    }
    while i < cs.len()
        invariant
            i <= cs@.len(),
            done@.map_values(|l: Vec<char>| l@) == pieces(cs@.take(i as int)).drop_last().map_values(|x: Seq<char>| strip_cr(x)),
            pieces(cs@.take(i as int)).last() == cur@,
        decreases cs@.len() - i,
    {
        let ghost p = pieces(cs@.take(i as int));
        proof {
            lemma_pieces_nonempty(cs@.take(i as int));
            assert(cs@.take(i + 1).drop_last() =~= cs@.take(i as int));
            assert(cs@.take(i + 1).last() == cs@[i as int]);
        }
        if cs[i] == '\n' {
            let mut line = cur;
            let n = line.len();
            if n > 0 && line[n - 1] == '\r' {
                line.pop();
            }
            assert(line@ == strip_cr(p.last()));
            done.push(line);
            cur = Vec::new();
            assert(pieces(cs@.take(i + 1)) == p.push(Seq::<char>::empty()));
            assert(pieces(cs@.take(i + 1)).drop_last() =~= p);
            assert(p =~= p.drop_last().push(p.last()));
            assert(done@.map_values(|l: Vec<char>| l@) =~= p.drop_last().map_values(|x: Seq<char>| strip_cr(x)).push(strip_cr(p.last())));
            assert(done@.map_values(|l: Vec<char>| l@) =~= p.map_values(|x: Seq<char>| strip_cr(x)));
        } else {
            cur.push(cs[i]);
            assert(pieces(cs@.take(i + 1)) == p.update(p.len() - 1, p.last().push(cs@[i as int])));
            assert(pieces(cs@.take(i + 1)).drop_last() =~= p.drop_last());
        }
        i = i + 1;
    }
    assert(cs@.take(cs@.len() as int) =~= cs@);
    proof {
        lemma_pieces_nonempty(cs@);
    }
    if cur.len() > 0 {
        let ghost before = done@.map_values(|l: Vec<char>| l@);
        done.push(cur);
        assert(done@.map_values(|l: Vec<char>| l@) =~= before.push(pieces(s@).last()));
    }
    done
}

// ── Case and white space ─────────────────────────────────────────────────────

/// The full Unicode lower-case mapping of `s`, as `str::to_lowercase` computes it.
pub uninterp spec fn lowercase(s: Seq<char>) -> Seq<char>;

/// `str::to_lowercase`: the Unicode lower-case form of `s` (its value is named
/// [`lowercase`]); the empty text stays empty, and nothing more of the mapping is
/// stated.
#[verifier::external_body]
pub(crate) fn to_lower(s: &str) -> (r: String)
    ensures
        r@ == lowercase(s@),
        s@.len() == 0 ==> r@.len() == 0,
{
    s.to_lowercase()
}

/// Whether `c` is alphabetic or numeric in the Unicode sense.
pub uninterp spec fn is_alphanumeric(c: char) -> bool;

/// `char::is_alphanumeric` (its value is named [`is_alphanumeric`]).
#[verifier::external_body]
pub(crate) fn char_is_alphanumeric(c: char) -> (b: bool)
    ensures
        b == is_alphanumeric(c),
{
    c.is_alphanumeric()
}

/// The Unicode `White_Space` characters (what `char::is_whitespace` accepts).
pub open spec fn is_white(c: char) -> bool {
    let n = c as u32;
    (0x9 <= n && n <= 0xd) || n == 0x20 || n == 0x85 || n == 0xa0 || n == 0x1680 || (0x2000 <= n
        && n <= 0x200a) || n == 0x2028 || n == 0x2029 || n == 0x202f || n == 0x205f || n == 0x3000
}

pub fn is_white_exec(c: char) -> (b: bool)
    ensures
        b == is_white(c),
{
    let n = c as u32;
    (0x9 <= n && n <= 0xd) || n == 0x20 || n == 0x85 || n == 0xa0 || n == 0x1680 || (0x2000 <= n
        && n <= 0x200a) || n == 0x2028 || n == 0x2029 || n == 0x202f || n == 0x205f || n == 0x3000
}

/// `s` without leading and trailing white space (as `str::trim` gives it).
pub open spec fn trim(s: Seq<char>) -> Seq<char> {
    trim_end(trim_start(s))
}

pub open spec fn trim_start(s: Seq<char>) -> Seq<char>
    decreases s.len(),
{
    if s.len() > 0 && is_white(s[0]) {
        trim_start(s.drop_first())
    } else {
        s
    }
}

pub open spec fn trim_end(s: Seq<char>) -> Seq<char>
    decreases s.len(),
{
    if s.len() > 0 && is_white(s.last()) {
        trim_end(s.drop_last())
    } else {
        s
    }
}

/// The characters of `s` without leading and trailing white space.
pub fn trim_chars(s: &Vec<char>) -> (r: Vec<char>)
    ensures
        r@ == trim(s@),
{
    let mut k: usize = 0;
    assert(s@.skip(0) =~= s@);
    while k < s.len() && is_white_exec(s[k])
        invariant
            k <= s@.len(),
            trim_start(s@) == trim_start(s@.skip(k as int)),
        decreases s@.len() - k,
    {
        assert(s@.skip(k as int).drop_first() =~= s@.skip(k + 1));
        k = k + 1;
    }
    let mut n = s.len();
    assert(s@.subrange(k as int, n as int) =~= s@.skip(k as int));
    while n > k && is_white_exec(s[n - 1])
        invariant
            k <= n <= s@.len(),
            trim_end(s@.skip(k as int)) == trim_end(s@.subrange(k as int, n as int)),
        decreases n,
    {
        assert(s@.subrange(k as int, n as int).drop_last() =~= s@.subrange(k as int, n - 1));
        n = n - 1;
    }
    let mut r: Vec<char> = Vec::new();
    let mut i = k;
    while i < n
        invariant
            k <= i <= n,
            n <= s@.len(),
            r@ == s@.subrange(k as int, i as int),
        decreases n - i,
    {
        r.push(s[i]);
        assert(s@.subrange(k as int, i + 1) =~= s@.subrange(k as int, i as int).push(s@[i as int]));
        i = i + 1;
    }
    assert(s@.skip(k as int) == trim_start(s@));
    r
}

/// ASCII letters in lower case, every other character unchanged.
pub open spec fn ascii_lower(c: char) -> char {
    if 'A' <= c && c <= 'Z' {
        ((c as u32) + 32) as char
    } else {
        c
    }
}

/// ASCII letters in lower case (what `char::to_ascii_lowercase` does).
pub(crate) fn ascii_lower_exec(c: char) -> (r: char)
    ensures
        r == ascii_lower(c),
{
    if 'A' <= c && c <= 'Z' {
        ((c as u8) + 32) as char
    } else {
        c
    }
}

} // verus!
