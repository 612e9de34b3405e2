//! JSON values, their textual forms (written by `serde_json`), and the ordered
//! objects that example generation builds.

use vstd::prelude::*;
use crate::text::{chars_of, string_of};

verus! {

/// A JSON value. Object members are kept in ascending key order, each key once,
/// the order in which `serde_json` keeps and writes them.
pub enum JsonValue {
    Null,
    Bool(bool),
    /// A number, held as the text that denotes it (`42`, `-1`, `0.0`).
    Number(String),
    Str(String),
    Array(Vec<JsonValue>),
    Object(Vec<(String, JsonValue)>),
}

/// Mathematical model of a [`JsonValue`].
pub enum JsonView {
    Null,
    Bool(bool),
    Number(Seq<char>),
    Str(Seq<char>),
    Array(Seq<JsonView>),
    Object(Seq<(Seq<char>, JsonView)>),
}

pub open spec fn json_view(v: JsonValue) -> JsonView
    decreases v,
{
    match v {
        JsonValue::Null => JsonView::Null,
        JsonValue::Bool(b) => JsonView::Bool(b),
        JsonValue::Number(n) => JsonView::Number(n@),
        JsonValue::Str(s) => JsonView::Str(s@),
        JsonValue::Array(items) => JsonView::Array(json_views(items@)),
        JsonValue::Object(members) => JsonView::Object(member_views(members@)),
    }
}

pub open spec fn json_views(items: Seq<JsonValue>) -> Seq<JsonView>
    decreases items,
{
    if items.len() == 0 {
        Seq::empty()
    } else {
        json_views(items.drop_last()).push(json_view(items.last()))
    }
}

pub open spec fn member_views(members: Seq<(String, JsonValue)>) -> Seq<(Seq<char>, JsonView)>
    decreases members,
{
    if members.len() == 0 {
        Seq::empty()
    } else {
        member_views(members.drop_last()).push((members.last().0@, json_view(members.last().1)))
    }
}

pub proof fn lemma_json_views(items: Seq<JsonValue>)
    ensures
        json_views(items).len() == items.len(),
        forall|i: int| 0 <= i < items.len() ==> #[trigger] json_views(items)[i] == json_view(items[i]),
    decreases items.len(),
{
    if items.len() > 0 {
        lemma_json_views(items.drop_last());
    }
}

pub proof fn lemma_member_views(members: Seq<(String, JsonValue)>)
    ensures
        member_views(members).len() == members.len(),
        forall|i: int|
            0 <= i < members.len() ==> #[trigger] member_views(members)[i] == (
                members[i].0@,
                json_view(members[i].1),
            ),
    decreases members.len(),
{
    if members.len() > 0 {
        lemma_member_views(members.drop_last());
    }
}

impl View for JsonValue {
    type V = JsonView;

    open spec fn view(&self) -> JsonView {
        json_view(*self)
    }
}

// ── Characters ───────────────────────────────────────────────────────────────

/// The lower-case hexadecimal (and decimal) digit for `n` in `0..16`.
pub open spec fn digit_char(n: int) -> char {
    if n == 0 { '0' } else if n == 1 { '1' } else if n == 2 { '2' } else if n == 3 { '3' }
    else if n == 4 { '4' } else if n == 5 { '5' } else if n == 6 { '6' } else if n == 7 { '7' }
    else if n == 8 { '8' } else if n == 9 { '9' } else if n == 10 { 'a' } else if n == 11 { 'b' }
    else if n == 12 { 'c' } else if n == 13 { 'd' } else if n == 14 { 'e' } else { 'f' }
}

pub fn digit(n: u8) -> (c: char)
    requires
        n < 16,
    ensures
        c == digit_char(n as int),
{
    match n {
        0 => '0', 1 => '1', 2 => '2', 3 => '3', 4 => '4', 5 => '5', 6 => '6', 7 => '7',
        8 => '8', 9 => '9', 10 => 'a', 11 => 'b', 12 => 'c', 13 => 'd', 14 => 'e', _ => 'f',
    }
}

/// Decimal digits of a natural number, most significant first, no leading zeros.
pub open spec fn nat_text(n: nat) -> Seq<char>
    decreases n,
{
    if n < 10 {
        seq![digit_char(n as int)]
    } else {
        nat_text(n / 10) + seq![digit_char((n % 10) as int)]
    }
}

/// Decimal form of an integer, with a leading `-` when negative.
pub open spec fn int_text(n: int) -> Seq<char> {
    if n < 0 {
        seq!['-'] + nat_text((-n) as nat)
    } else {
        nat_text(n as nat)
    }
}

/// Appends the decimal digits of `n`.
pub fn push_nat(out: &mut Vec<char>, n: u128)
    ensures
        final(out)@ == old(out)@ + nat_text(n as nat),
    decreases n,
{
    if n >= 10 {
        push_nat(out, n / 10);
    }
    out.push(digit((n % 10) as u8));
    proof {
        assert(old(out)@ + nat_text(n as nat) =~= old(out)@ + (if n >= 10 {
            nat_text((n / 10) as nat)
        } else {
            Seq::<char>::empty()
        }) + seq![digit_char((n % 10) as int)]);
    }
}

/// Decimal text of an unsigned number.
pub fn nat_to_text(n: u128) -> (s: String)
    ensures
        s@ == nat_text(n as nat),
{
    let mut v: Vec<char> = Vec::new();
    push_nat(&mut v, n);
    assert(v@ =~= nat_text(n as nat));
    string_of(v.as_slice())
}

/// Decimal text of a signed number.
pub fn int_to_text(n: i64) -> (s: String)
    ensures
        s@ == int_text(n as int),
{
    let mut v: Vec<char> = Vec::new();
    if n < 0 {
        v.push('-');
        let m: u128 = (0i128 - (n as i128)) as u128;
        push_nat(&mut v, m);
    } else {
        push_nat(&mut v, n as u128);
    }
    assert(v@ =~= int_text(n as int));
    string_of(v.as_slice())
}

// ── Text ─────────────────────────────────────────────────────────────────────

/// The compact text that `serde_json::to_string` writes for the value.
pub uninterp spec fn compact(v: JsonView) -> Seq<char>;

/// The two-space indented text that `serde_json::to_string_pretty` writes for the
/// value.
pub uninterp spec fn pretty(v: JsonView) -> Seq<char>;

/// `serde_json::to_string` of the value (its text is named [`compact`]).
#[verifier::external_body]
pub fn to_compact_string(v: &JsonValue) -> (s: String)
    ensures
        s@ == compact(v@),
{
    serde_json::to_string(&serde_value_of(v)).unwrap_or_default()
}

/// `serde_json::to_string_pretty` of the value (its text is named [`pretty`]).
#[verifier::external_body]
pub fn to_pretty_string(v: &JsonValue) -> (s: String)
    ensures
        s@ == pretty(v@),
{
    serde_json::to_string_pretty(&serde_value_of(v)).unwrap_or_default()
}

/// Converts a [`JsonValue`] into a `serde_json::Value` variant by variant (a number by
/// parsing its text, `null` where that text is no number); nothing is stated of the
/// result.
#[verifier::external_body]
fn serde_value_of(v: &JsonValue) -> serde_json::Value {
    match v {
        JsonValue::Null => serde_json::Value::Null,
        JsonValue::Bool(b) => serde_json::Value::Bool(*b),
        JsonValue::Number(t) => t.parse::<serde_json::Number>().map(serde_json::Value::Number).unwrap_or(serde_json::Value::Null),
        JsonValue::Str(t) => serde_json::Value::String(t.clone()),
        JsonValue::Array(a) => serde_json::Value::Array(a.iter().map(serde_value_of).collect()),
        JsonValue::Object(m) => serde_json::Value::Object(m.iter().map(|(k, x)| (k.clone(), serde_value_of(x))).collect()),
    }
}

// ── Writing ──────────────────────────────────────────────────────────────────

/// Appends the characters of `s`.
pub fn push_str(out: &mut Vec<char>, s: &str)
    ensures
        final(out)@ == old(out)@ + s@,
{
    let cs = chars_of(s);
    let mut i: usize = 0;
    while i < cs.len()
        invariant
            cs@ == s@,
            i <= cs@.len(),
            out@ == old(out)@ + cs@.take(i as int),
        decreases cs@.len() - i,
    {
        out.push(cs[i]);
        assert(cs@.take(i + 1) =~= cs@.take(i as int).push(cs@[i as int]));
        i = i + 1;
    }
    assert(cs@.take(cs@.len() as int) =~= cs@);
}

/// Appends the characters held in `cs`.
pub fn push_str_chars(out: &mut Vec<char>, cs: &Vec<char>)
    ensures
        final(out)@ == old(out)@ + cs@,
{
    let mut i: usize = 0;
    while i < cs.len()
        invariant
            i <= cs@.len(),
            out@ == old(out)@ + cs@.take(i as int),
        decreases cs@.len() - i,
    {
        out.push(cs[i]);
        assert(cs@.take(i + 1) =~= cs@.take(i as int).push(cs@[i as int]));
        i = i + 1;
    }
    assert(cs@.take(cs@.len() as int) =~= cs@);
}


// ── Objects ──────────────────────────────────────────────────────────────────

/// Strict lexicographic order on character sequences: the order of Rust `String`s.
pub open spec fn seq_lt(a: Seq<char>, b: Seq<char>) -> bool
    decreases a.len(),
{
    if a.len() == 0 {
        b.len() > 0
    } else if b.len() == 0 {
        false
    } else if a[0] == b[0] {
        seq_lt(a.drop_first(), b.drop_first())
    } else {
        (a[0] as u32) < (b[0] as u32)
    }
}

/// Number of leading members whose key orders before `k`.
pub open spec fn insert_pos(m: Seq<(Seq<char>, JsonView)>, k: Seq<char>) -> nat
    decreases m.len(),
{
    if m.len() == 0 {
        0
    } else if seq_lt(m[0].0, k) {
        1 + insert_pos(m.drop_first(), k)
    } else {
        0
    }
}

/// Members after inserting `(k, v)` into a key-ordered member list: a member with key
/// `k` is replaced, otherwise the new member goes where the order puts it.
pub open spec fn obj_insert(m: Seq<(Seq<char>, JsonView)>, k: Seq<char>, v: JsonView) -> Seq<(Seq<char>, JsonView)> {
    let j = insert_pos(m, k) as int;
    if j < m.len() && m[j].0 == k {
        m.update(j, (k, v))
    } else {
        m.insert(j, (k, v))
    }
}

/// Members after inserting each member of `n` in turn.
pub open spec fn obj_extend(m: Seq<(Seq<char>, JsonView)>, n: Seq<(Seq<char>, JsonView)>) -> Seq<(Seq<char>, JsonView)>
    decreases n.len(),
{
    if n.len() == 0 {
        m
    } else {
        obj_insert(obj_extend(m, n.drop_last()), n.last().0, n.last().1)
    }
}

proof fn lemma_insert_pos_bound(m: Seq<(Seq<char>, JsonView)>, k: Seq<char>)
    ensures
        insert_pos(m, k) <= m.len(),
    decreases m.len(),
{
    if m.len() > 0 {
        lemma_insert_pos_bound(m.drop_first(), k);
    }
}

/// Whether `a` orders strictly before `b`.
pub fn chars_lt(a: &Vec<char>, b: &Vec<char>) -> (r: bool)
    ensures
        r == seq_lt(a@, b@),
{
    let mut i: usize = 0;
    assert(a@.skip(0) =~= a@);
    assert(b@.skip(0) =~= b@);
    while i < a.len() && i < b.len() && a[i] == b[i]
        invariant
            i <= a@.len(),
            i <= b@.len(),
            seq_lt(a@, b@) == seq_lt(a@.skip(i as int), b@.skip(i as int)),
        decreases a@.len() - i,
    {
        assert(a@.skip(i as int).drop_first() =~= a@.skip(i + 1));
        assert(b@.skip(i as int).drop_first() =~= b@.skip(i + 1));
        i = i + 1;
    }
    if i < a.len() {
        assert(a@.skip(i as int)[0] == a@[i as int]);
    }
    if i < b.len() {
        assert(b@.skip(i as int)[0] == b@[i as int]);
    }
    if i == a.len() {
        i < b.len()
    } else if i == b.len() {
        false
    } else {
        (a[i] as u32) < (b[i] as u32)
    }
}

/// Whether two character sequences are equal.
pub fn chars_eq(a: &Vec<char>, b: &Vec<char>) -> (r: bool)
    ensures
        r == (a@ == b@),
{
    if a.len() != b.len() {
        return false;
    }
    let mut i: usize = 0;
    while i < a.len()
        invariant
            a@.len() == b@.len(),
            i <= a@.len(),
            a@.take(i as int) == b@.take(i as int),
        decreases a@.len() - i,
    {
        if a[i] != b[i] {
            assert(a@[i as int] != b@[i as int]);
            return false;
        }
        assert(a@.take(i + 1) =~= a@.take(i as int).push(a@[i as int]));
        assert(b@.take(i + 1) =~= b@.take(i as int).push(b@[i as int]));
        i = i + 1;
    }
    assert(a@ =~= a@.take(a@.len() as int));
    assert(b@ =~= b@.take(b@.len() as int));
    true
}

/// Inserts `(k, v)` into a key-ordered member list (see [`obj_insert`]).
pub fn insert_member(m: &mut Vec<(String, JsonValue)>, k: String, v: JsonValue)
    ensures
        member_views(final(m)@) == obj_insert(member_views(old(m)@), k@, v@),
{
    proof {
        lemma_member_views(m@);
    }
    let ghost ms = member_views(m@);
    let kc = chars_of(k.as_str());
    let mut i: usize = 0;
    let mut stop = false;
    assert(ms.skip(0) =~= ms);
    while i < m.len() && !stop
        invariant
            ms == member_views(m@),
            ms.len() == m@.len(),
            forall|q: int| 0 <= q < m@.len() ==> #[trigger] ms[q] == (m@[q].0@, json_view(m@[q].1)),
            kc@ == k@,
            i <= m@.len(),
            !stop ==> insert_pos(ms, k@) == i + insert_pos(ms.skip(i as int), k@),
            stop ==> insert_pos(ms, k@) == i && i < m@.len() && !seq_lt(ms[i as int].0, k@),
        decreases m@.len() - i, (if stop { 0int } else { 1int }),
    {
        let key = chars_of(m[i].0.as_str());
        if chars_lt(&key, &kc) {
            assert(ms.skip(i as int)[0] == ms[i as int]);
            assert(ms.skip(i as int).drop_first() =~= ms.skip(i + 1));
            i = i + 1;
        } else {
            assert(ms.skip(i as int)[0] == ms[i as int]);
            stop = true;
        }
    }
    if !stop {
        assert(ms.skip(i as int).len() == 0);
    }
    proof {
        lemma_insert_pos_bound(ms, k@);
    }
    let ghost old_m = m@;
    let mut same = false;
    if i < m.len() {
        let key = chars_of(m[i].0.as_str());
        same = chars_eq(&key, &kc);
    }
    if same {
        m.set(i, (k, v));
        proof {
            lemma_member_views(m@);
            assert(member_views(m@) =~= ms.update(i as int, (k@, v@)));
        }
    } else {
        m.insert(i, (k, v));
        proof {
            lemma_member_views(m@);
            assert forall|q: int| 0 <= q < m@.len() implies #[trigger] member_views(m@)[q] == ms.insert(i as int, (k@, v@))[q] by {
                if q < i {
                    assert(m@[q] == old_m[q]);
                } else if q > i {
                    assert(m@[q] == old_m[q - 1]);
                }
            }
            assert(member_views(m@) =~= ms.insert(i as int, (k@, v@)));
        }
    }
}

/// Inserts a copy of each member of `n`, in order (what `Map::extend` does).
pub fn extend_members(m: &mut Vec<(String, JsonValue)>, n: &Vec<(String, JsonValue)>)
    ensures
        member_views(final(m)@) == obj_extend(member_views(old(m)@), member_views(n@)),
{
    proof {
        lemma_member_views(n@);
    }
    let ghost ns = member_views(n@);
    let mut i: usize = 0;
    while i < n.len()
        invariant
            i <= n@.len(),
            ns == member_views(n@),
            ns.len() == n@.len(),
            forall|q: int| 0 <= q < n@.len() ==> #[trigger] ns[q] == (n@[q].0@, json_view(n@[q].1)),
            member_views(m@) == obj_extend(member_views(old(m)@), ns.take(i as int)),
        decreases n@.len() - i,
    {
        let k = n[i].0.clone();
        let v = clone_json(&n[i].1);
        insert_member(m, k, v);
        assert(ns.take(i + 1).drop_last() =~= ns.take(i as int));
        i = i + 1;
    }
    assert(ns.take(n@.len() as int) =~= ns);
}

/// A copy of `v`.
pub fn clone_json(v: &JsonValue) -> (r: JsonValue)
    ensures
        r@ == v@,
    decreases v,
{
    match v {
        JsonValue::Null => JsonValue::Null,
        JsonValue::Bool(b) => JsonValue::Bool(*b),
        JsonValue::Number(n) => JsonValue::Number(n.clone()),
        JsonValue::Str(t) => JsonValue::Str(t.clone()),
        JsonValue::Array(items) => {
            let mut out: Vec<JsonValue> = Vec::new();
            let mut i: usize = 0;
            while i < items.len()
                invariant
                    i <= items@.len(),
                    *v == JsonValue::Array(*items),
                    json_views(out@) == json_views(items@.take(i as int)),
                decreases items@.len() - i,
            {
                proof {
                    assert(decreases_to!(*v => (*v)->Array_0));
                    assert(decreases_to!(*items => items[i as int]));
                }
                let c = clone_json(&items[i]);
                let ghost before = out@;
                out.push(c);
                proof {
                    assert(out@.drop_last() =~= before);
                    assert(items@.take(i + 1).drop_last() =~= items@.take(i as int));
                }
                i = i + 1;
            }
            assert(items@.take(items@.len() as int) =~= items@);
            JsonValue::Array(out)
        },
        JsonValue::Object(members) => {
            let mut out: Vec<(String, JsonValue)> = Vec::new();
            let mut i: usize = 0;
            while i < members.len()
                invariant
                    i <= members@.len(),
                    *v == JsonValue::Object(*members),
                    member_views(out@) == member_views(members@.take(i as int)),
                decreases members@.len() - i,
            {
                proof {
                    assert(decreases_to!(*v => (*v)->Object_0));
                    assert(decreases_to!(*members => members[i as int]));
                    assert(decreases_to!(members[i as int] => members[i as int].1));
                }
                let c = clone_json(&members[i].1);
                let k = members[i].0.clone();
                let ghost before = out@;
                out.push((k, c));
                proof {
                    assert(out@.drop_last() =~= before);
                    assert(members@.take(i + 1).drop_last() =~= members@.take(i as int));
                }
                i = i + 1;
            }
            assert(members@.take(members@.len() as int) =~= members@);
            JsonValue::Object(out)
        },
    }
}

} // verus!
