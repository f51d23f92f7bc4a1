//! The library's JSON model.
//!
//! A parsed log line is held as a [`Json`] tree whose scalars are plain
//! values: a number is kept as its decimal rendering, so no numeric type is
//! needed and re-encoding reproduces the token exactly.  In specifications a
//! tree appears as its view, a [`JsonV`], built from sequences alone.
//! Parsing a line of text goes through `serde_json` behind a trusted
//! wrapper; everything that reads or writes the tree afterwards — lookups,
//! the compact encoder, the scalar rendering that the field model uses — is
//! verified here.

use vstd::prelude::*;
use vstd::string::*;
use crate::text::str_chars;
use crate::text::str_eq;

verus! {

broadcast use vstd::std_specs::vec::group_vec_axioms;

/// One JSON value.  `Number` keeps the number's own textual form; `Object`
/// keeps its entries in the order the parser handed them over.
#[derive(Debug)]
pub enum Json {
    Null,
    Bool(bool),
    Number(String),
    Text(String),
    Array(Vec<Json>),
    Object(Vec<(String, Json)>),
}

/// The mathematical shape of a JSON value.
#[verifier::ext_equal]
pub enum JsonV {
    Null,
    Bool(bool),
    Number(Seq<char>),
    Text(Seq<char>),
    Array(Seq<JsonV>),
    Object(Seq<(Seq<char>, JsonV)>),
}

/// The view of one tree.
pub open spec fn json_view(j: Json) -> JsonV
    decreases j,
{
    match j {
        Json::Null => JsonV::Null,
        Json::Bool(b) => JsonV::Bool(b),
        Json::Number(s) => JsonV::Number(s@),
        Json::Text(s) => JsonV::Text(s@),
        Json::Array(a) => JsonV::Array(json_seq_view(a@)),
        Json::Object(m) => JsonV::Object(json_map_view(m@)),
    }
}

/// The views of a sequence of trees.
pub open spec fn json_seq_view(s: Seq<Json>) -> Seq<JsonV>
    decreases s,
{
    if s.len() == 0 {
        Seq::empty()
    } else {
        seq![json_view(s[0])] + json_seq_view(s.drop_first())
    }
}

/// The views of a sequence of object entries.
pub open spec fn json_map_view(s: Seq<(String, Json)>) -> Seq<(Seq<char>, JsonV)>
    decreases s,
{
    if s.len() == 0 {
        Seq::empty()
    } else {
        seq![(s[0].0@, json_view(s[0].1))] + json_map_view(s.drop_first())
    }
}

impl View for Json {
    type V = JsonV;

    open spec fn view(&self) -> JsonV {
        json_view(*self)
    }
}

pub broadcast proof fn lemma_json_seq_view(s: Seq<Json>)
    ensures
        (#[trigger] json_seq_view(s)).len() == s.len(),
        forall|i: int| 0 <= i < s.len() ==> json_seq_view(s)[i] == json_view(s[i]),
    decreases s.len(),
{
    if s.len() > 0 {
        lemma_json_seq_view(s.drop_first());
        assert(forall|i: int| 1 <= i < s.len() ==> s.drop_first()[i - 1] == s[i]);
    }
}

pub broadcast proof fn lemma_json_map_view(s: Seq<(String, Json)>)
    ensures
        (#[trigger] json_map_view(s)).len() == s.len(),
        forall|i: int|
            0 <= i < s.len() ==> json_map_view(s)[i] == (s[i].0@, json_view(s[i].1)),
    decreases s.len(),
{
    if s.len() > 0 {
        lemma_json_map_view(s.drop_first());
        assert(forall|i: int| 1 <= i < s.len() ==> s.drop_first()[i - 1] == s[i]);
    }
}

/// The value under `key`, looking at the first entry that carries it.
pub open spec fn spec_lookup(entries: Seq<(Seq<char>, JsonV)>, key: Seq<char>) -> Option<JsonV>
    decreases entries.len(),
{
    if entries.len() == 0 {
        None
    } else if entries[0].0 == key {
        Some(entries[0].1)
    } else {
        spec_lookup(entries.drop_first(), key)
    }
}

/// Looks `key` up among the entries of an object.
pub fn lookup<'a>(entries: &'a Vec<(String, Json)>, key: &str) -> (r: Option<&'a Json>)
    ensures
        match r {
            Some(j) => spec_lookup(json_map_view(entries@), key@) == Some(j@),
            None => spec_lookup(json_map_view(entries@), key@) is None,
        },
{
    proof {
        lemma_json_map_view(entries@);
    }
    let ghost mv = json_map_view(entries@);
    let mut i: usize = 0;
    proof {
        assert(mv.skip(0) =~= mv);
    }
    loop
        invariant
            i <= entries.len(),
            mv == json_map_view(entries@),
            mv.len() == entries@.len(),
            forall|k: int| 0 <= k < entries@.len()
                ==> mv[k] == (entries@[k].0@, json_view(entries@[k].1)),
            spec_lookup(mv, key@) == spec_lookup(mv.skip(i as int), key@),
        decreases entries.len() - i,
    {
        if i == entries.len() {
            return None;
        }
        let e = &entries[i];
        proof {
            assert(mv.skip(i as int)[0] == mv[i as int]);
        }
        if str_eq(e.0.as_str(), key) {
            return Some(&e.1);
        }
        proof {
            assert(mv.skip(i as int).drop_first() =~= mv.skip(i as int + 1));
        }
        i = i + 1;
    }
}

/// `entries` with `key` bound to `val`: the first entry carrying `key` is
/// replaced in place, or a new entry is appended at the end.
pub open spec fn spec_set(
    entries: Seq<(Seq<char>, JsonV)>,
    key: Seq<char>,
    val: JsonV,
) -> Seq<(Seq<char>, JsonV)>
    decreases entries.len(),
{
    if entries.len() == 0 {
        seq![(key, val)]
    } else if entries[0].0 == key {
        seq![(key, val)] + entries.drop_first()
    } else {
        seq![entries[0]] + spec_set(entries.drop_first(), key, val)
    }
}

proof fn lemma_set_at(entries: Seq<(Seq<char>, JsonV)>, key: Seq<char>, val: JsonV, i: int)
    requires
        0 <= i < entries.len(),
        entries[i].0 == key,
        forall|j: int| 0 <= j < i ==> entries[j].0 != key,
    ensures
        spec_set(entries, key, val) == entries.take(i) + seq![(key, val)] + entries.skip(i + 1),
    decreases i,
{
    if i == 0 {
        assert(seq![(key, val)] + entries.drop_first() =~= entries.take(0) + seq![(key, val)]
            + entries.skip(1));
    } else {
        assert(forall|j: int| 0 <= j < entries.drop_first().len() ==> entries.drop_first()[j]
            == entries[j + 1]);
        lemma_set_at(entries.drop_first(), key, val, i - 1);
        assert(seq![entries[0]] + (entries.drop_first().take(i - 1) + seq![(key, val)]
            + entries.drop_first().skip(i)) =~= entries.take(i) + seq![(key, val)] + entries.skip(
            i + 1,
        ));
    }
}

proof fn lemma_set_absent(entries: Seq<(Seq<char>, JsonV)>, key: Seq<char>, val: JsonV)
    requires
        forall|j: int| 0 <= j < entries.len() ==> entries[j].0 != key,
    ensures
        spec_set(entries, key, val) == entries + seq![(key, val)],
    decreases entries.len(),
{
    if entries.len() == 0 {
        assert(seq![(key, val)] =~= entries + seq![(key, val)]);
    } else {
        assert(forall|j: int| 0 <= j < entries.drop_first().len() ==> entries.drop_first()[j]
            == entries[j + 1]);
        lemma_set_absent(entries.drop_first(), key, val);
        assert(seq![entries[0]] + (entries.drop_first() + seq![(key, val)]) =~= entries + seq![
            (key, val),
        ]);
    }
}

/// The position of the first entry carrying `key`.
fn find_key_pos(entries: &Vec<(String, Json)>, key: &str) -> (r: Option<usize>)
    ensures
        match r {
            Some(i) => i < entries@.len() && entries@[i as int].0@ == key@ && forall|j: int|
                0 <= j < i ==> entries@[j].0@ != key@,
            None => forall|j: int| 0 <= j < entries@.len() ==> entries@[j].0@ != key@,
        },
{
    let mut i: usize = 0;
    loop
        invariant
            i <= entries.len(),
            forall|j: int| 0 <= j < i ==> entries@[j].0@ != key@,
        decreases entries.len() - i,
    {
        if i == entries.len() {
            return None;
        }
        let e = &entries[i];
        if str_eq(e.0.as_str(), key) {
            return Some(i);
        }
        i = i + 1;
    }
}

/// Binds `key` to `val` among `entries`, replacing an existing entry.
pub fn set_entry(entries: &mut Vec<(String, Json)>, key: String, val: Json)
    ensures
        json_map_view(final(entries)@) == spec_set(
            json_map_view(old(entries)@),
            key@,
            val@,
        ),
{
    proof {
        lemma_json_map_view(old(entries)@);
    }
    let ghost orig = old(entries)@;
    let ghost mv = json_map_view(old(entries)@);
    let ghost kview = key@;
    let ghost vview = val@;
    match find_key_pos(entries, key.as_str()) {
        Some(i) => {
            proof {
                assert forall|j: int| 0 <= j < i implies mv[j].0 != kview by {
                    assert(mv[j] == (orig[j].0@, json_view(orig[j].1)));
                }
                assert(mv[i as int].0 == kview);
            }
            entries.remove(i);
            entries.insert(i, (key, val));
            proof {
                lemma_set_at(mv, kview, vview, i as int);
                lemma_json_map_view(entries@);
                assert(entries@.len() == orig.len());
                assert(entries@[i as int].0@ == kview);
                assert(json_view(entries@[i as int].1) == vview);
                assert forall|k: int| 0 <= k < orig.len() && k != i implies entries@[k]
                    == orig[k] by {
                }
                assert(json_map_view(entries@) =~= mv.take(i as int) + seq![(kview, vview)]
                    + mv.skip(i as int + 1));
            }
        },
        None => {
            entries.push((key, val));
            proof {
                assert forall|j: int| 0 <= j < mv.len() implies mv[j].0 != kview by {
                    assert(mv[j] == (orig[j].0@, json_view(orig[j].1)));
                }
                lemma_set_absent(mv, kview, vview);
                lemma_json_map_view(entries@);
                assert(json_map_view(entries@) =~= mv + seq![(kview, vview)]);
            }
        },
    }
}

/// A deep copy, equal in view to the original.
#[verifier::loop_isolation(false)]
pub fn clone_json(j: &Json) -> (r: Json)
    ensures
        r@ == j@,
    decreases j,
{
    match j {
        Json::Null => Json::Null,
        Json::Bool(b) => Json::Bool(*b),
        Json::Number(s) => Json::Number(s.clone()),
        Json::Text(s) => Json::Text(s.clone()),
        Json::Array(a) => {
            let mut out: Vec<Json> = Vec::new();
            let mut i: usize = 0;
            while i < a.len()
                invariant
                    i <= a.len(),
                    out@.len() == i,
                    forall|k: int| 0 <= k < i ==> json_view(#[trigger] out@[k]) == json_view(
                        a@[k],
                    ),
                decreases a.len() - i,
            {
                proof {
                    assert(*a == j->Array_0);
                    assert(decreases_to!(*j => j->Array_0));
                    assert(decreases_to!(*a => a@));
                    assert(decreases_to!(a@ => a@[i as int]));
                }
                out.push(clone_json(&a[i]));
                i = i + 1;
            }
            proof {
                lemma_json_seq_view(out@);
                lemma_json_seq_view(a@);
                assert(json_seq_view(out@) =~= json_seq_view(a@));
            }
            Json::Array(out)
        },
        Json::Object(m) => {
            let mut out: Vec<(String, Json)> = Vec::new();
            let mut i: usize = 0;
            while i < m.len()
                invariant
                    i <= m.len(),
                    out@.len() == i,
                    forall|k: int| 0 <= k < i ==> (#[trigger] out@[k]).0@ == m@[k].0@
                        && json_view(out@[k].1) == json_view(m@[k].1),
                decreases m.len() - i,
            {
                proof {
                    assert(*m == j->Object_0);
                    assert(decreases_to!(*j => j->Object_0));
                    assert(decreases_to!(*m => m@));
                    assert(decreases_to!(m@ => m@[i as int]));
                    assert(decreases_to!(m@[i as int] => m@[i as int].1));
                }
                let e = &m[i];
                let k = e.0.clone();
                let v = clone_json(&e.1);
                out.push((k, v));
                i = i + 1;
            }
            proof {
                lemma_json_map_view(out@);
                lemma_json_map_view(m@);
                assert(json_map_view(out@) =~= json_map_view(m@));
            }
            Json::Object(out)
        },
    }
}

/// How one character appears inside an encoded JSON string: quote and
/// backslash get a backslash, the common control characters their short
/// escapes, the rest of the control range a `\u00..` escape.
pub open spec fn escape_char(c: char) -> Seq<char> {
    if c == '"' {
        seq!['\\', '"']
    } else if c == '\\' {
        seq!['\\', '\\']
    } else if c == '\u{8}' {
        seq!['\\', 'b']
    } else if c == '\u{c}' {
        seq!['\\', 'f']
    } else if c == '\n' {
        seq!['\\', 'n']
    } else if c == '\r' {
        seq!['\\', 'r']
    } else if c == '\t' {
        seq!['\\', 't']
    } else if (c as u32) < 0x20 {
        seq!['\\', 'u', '0', '0', hex_digit((c as u32) as int / 16), hex_digit(
            (c as u32) as int % 16,
        )]
    } else {
        seq![c]
    }
}

/// The lower-case hex digit for `n` in `0..16`.
pub open spec fn hex_digit(n: int) -> char {
    if n < 10 {
        ((0x30 + n) as u8) as char
    } else {
        ((0x57 + n) as u8) as char
    }
}

/// The escaped form of the first `n` characters of `s`.
pub open spec fn escape_upto(s: Seq<char>, n: int) -> Seq<char>
    decreases n,
{
    if n <= 0 {
        Seq::empty()
    } else {
        escape_upto(s, n - 1) + escape_char(s[n - 1])
    }
}

/// The escaped form of a whole string body.
pub open spec fn escape_text(s: Seq<char>) -> Seq<char> {
    escape_upto(s, s.len() as int)
}

/// A string as it appears in JSON text: quoted and escaped.
pub open spec fn quote_text(s: Seq<char>) -> Seq<char> {
    seq!['"'] + escape_text(s) + seq!['"']
}

/// The compact JSON text of a value.
pub open spec fn spec_json_text(j: JsonV) -> Seq<char>
    decreases j,
{
    match j {
        JsonV::Null => "null"@,
        JsonV::Bool(b) => if b {
            "true"@
        } else {
            "false"@
        },
        JsonV::Number(s) => s,
        JsonV::Text(s) => quote_text(s),
        JsonV::Array(a) => seq!['['] + spec_list_text_upto(a, a.len() as int) + seq![']'],
        JsonV::Object(m) => seq!['{'] + spec_obj_text_upto(m, m.len() as int) + seq!['}'],
    }
}

/// The comma-separated texts of the first `n` array elements.
pub open spec fn spec_list_text_upto(items: Seq<JsonV>, n: int) -> Seq<char>
    decreases items, n,
{
    if n <= 0 || n > items.len() {
        Seq::empty()
    } else if n == 1 {
        spec_json_text(items[0])
    } else {
        spec_list_text_upto(items, n - 1) + seq![','] + spec_json_text(items[n - 1])
    }
}

/// The text of one object entry.
pub open spec fn spec_entry_text(e: (Seq<char>, JsonV)) -> Seq<char>
    decreases e,
{
    quote_text(e.0) + seq![':'] + spec_json_text(e.1)
}

/// The comma-separated texts of the first `n` object entries.
pub open spec fn spec_obj_text_upto(entries: Seq<(Seq<char>, JsonV)>, n: int) -> Seq<char>
    decreases entries, n,
{
    if n <= 0 || n > entries.len() {
        Seq::empty()
    } else if n == 1 {
        spec_entry_text(entries[0])
    } else {
        spec_obj_text_upto(entries, n - 1) + seq![','] + spec_entry_text(entries[n - 1])
    }
}

/// Appends the characters of `s` to `out`.
pub(crate) fn push_str_chars(out: &mut Vec<char>, s: &str)
    ensures
        final(out)@ == old(out)@ + s@,
{
    let cs = str_chars(s);
    let mut i: usize = 0;
    while i < cs.len()
        invariant
            i <= cs.len(),
            cs@ == s@,
            out@ == old(out)@ + s@.subrange(0, i as int),
        decreases cs.len() - i,
    {
        out.push(cs[i]);
        assert(out@ =~= old(out)@ + s@.subrange(0, i + 1));
        i = i + 1;
    }
    assert(out@ =~= old(out)@ + s@);
}

/// Appends the escaped form of `s` to `out`.
fn push_escaped(out: &mut Vec<char>, s: &str)
    ensures
        final(out)@ == old(out)@ + escape_text(s@),
{
    let cs = str_chars(s);
    let mut i: usize = 0;
    while i < cs.len()
        invariant
            i <= cs.len(),
            cs@ == s@,
            out@ == old(out)@ + escape_upto(s@, i as int),
        decreases cs.len() - i,
    {
        let c = cs[i];
        let code = c as u32;
        if c == '"' {
            out.push('\\');
            out.push('"');
        } else if c == '\\' {
            out.push('\\');
            out.push('\\');
        } else if c == '\u{8}' {
            out.push('\\');
            out.push('b');
        } else if c == '\u{c}' {
            out.push('\\');
            out.push('f');
        } else if c == '\n' {
            out.push('\\');
            out.push('n');
        } else if c == '\r' {
            out.push('\\');
            out.push('r');
        } else if c == '\t' {
            out.push('\\');
            out.push('t');
        } else if code < 0x20 {
            out.push('\\');
            out.push('u');
            out.push('0');
            out.push('0');
            let hi = (code / 16) as u8;
            let lo = (code % 16) as u8;
            let dh = if hi < 10 {
                (0x30 + hi) as char
            } else {
                (0x57 + hi) as char
            };
            let dl = if lo < 10 {
                (0x30 + lo) as char
            } else {
                (0x57 + lo) as char
            };
            out.push(dh);
            out.push(dl);
        } else {
            out.push(c);
        }
        assert(out@ =~= old(out)@ + escape_upto(s@, i + 1));
        i = i + 1;
    }
    assert(out@ =~= old(out)@ + escape_text(s@));
}

/// Appends the compact JSON text of `j` to `out`.
#[verifier::loop_isolation(false)]
fn write_json(j: &Json, out: &mut Vec<char>)
    ensures
        final(out)@ == old(out)@ + spec_json_text(j@),
    decreases j,
{
    match j {
        Json::Null => {
            push_str_chars(out, "null");
        },
        Json::Bool(b) => {
            if *b {
                push_str_chars(out, "true");
            } else {
                push_str_chars(out, "false");
            }
        },
        Json::Number(s) => {
            push_str_chars(out, s.as_str());
        },
        Json::Text(s) => {
            out.push('"');
            push_escaped(out, s.as_str());
            out.push('"');
            assert(out@ =~= old(out)@ + quote_text(s@));
        },
        Json::Array(a) => {
            proof {
                lemma_json_seq_view(a@);
            }
            let ghost items = json_seq_view(a@);
            out.push('[');
            let ghost base = out@;
            let mut i: usize = 0;
            while i < a.len()
                invariant
                    i <= a.len(),
                    items == json_seq_view(a@),
                    items.len() == a@.len(),
                    forall|k: int| 0 <= k < a@.len() ==> items[k] == json_view(a@[k]),
                    out@ == base + spec_list_text_upto(items, i as int),
                decreases a.len() - i,
            {
                if i > 0 {
                    out.push(',');
                }
                proof {
                    assert(*a == j->Array_0);
                    assert(decreases_to!(*j => j->Array_0));
                    assert(decreases_to!(*a => a@));
                    assert(decreases_to!(a@ => a@[i as int]));
                }
                write_json(&a[i], out);
                proof {
                    if i == 0 {
                        assert(out@ =~= base + spec_list_text_upto(items, 1));
                    } else {
                        assert(out@ =~= base + spec_list_text_upto(items, i + 1));
                    }
                }
                i = i + 1;
            }
            out.push(']');
            assert(out@ =~= old(out)@ + spec_json_text(j@));
        },
        Json::Object(m) => {
            proof {
                lemma_json_map_view(m@);
            }
            let ghost entries = json_map_view(m@);
            out.push('{');
            let ghost base = out@;
            let mut i: usize = 0;
            while i < m.len()
                invariant
                    i <= m.len(),
                    entries == json_map_view(m@),
                    entries.len() == m@.len(),
                    forall|k: int| 0 <= k < m@.len() ==> entries[k] == (m@[k].0@, json_view(
                        m@[k].1,
                    )),
                    out@ == base + spec_obj_text_upto(entries, i as int),
                decreases m.len() - i,
            {
                if i > 0 {
                    out.push(',');
                }
                proof {
                    assert(*m == j->Object_0);
                    assert(decreases_to!(*j => j->Object_0));
                    assert(decreases_to!(*m => m@));
                    assert(decreases_to!(m@ => m@[i as int]));
                    assert(decreases_to!(m@[i as int] => m@[i as int].1));
                }
                let e = &m[i];
                out.push('"');
                push_escaped(out, e.0.as_str());
                out.push('"');
                out.push(':');
                write_json(&e.1, out);
                proof {
                    assert(out@ =~= base + spec_obj_text_upto(entries, i as int) + (if i > 0 {
                        seq![',']
                    } else {
                        Seq::empty()
                    }) + spec_entry_text(entries[i as int]));
                    if i == 0 {
                        assert(out@ =~= base + spec_obj_text_upto(entries, 1));
                    } else {
                        assert(out@ =~= base + spec_obj_text_upto(entries, i + 1));
                    }
                }
                i = i + 1;
            }
            out.push('}');
            assert(out@ =~= old(out)@ + spec_json_text(j@));
        },
    }
}

/// The compact JSON text of a value, as the output stream carries it.
pub fn json_text(j: &Json) -> (s: String)
    ensures
        s@ == spec_json_text(j@),
{
    let mut out: Vec<char> = Vec::new();
    write_json(j, &mut out);
    crate::text::chars_to_string(&out)
}

/// How a JSON value answers when a scalar string is demanded of it:
/// scalars render as their JSON token (a string as its bare content),
/// composites collapse to sentinels.
pub open spec fn spec_scalar_text(j: JsonV) -> Seq<char> {
    match j {
        JsonV::Null => "null"@,
        JsonV::Bool(b) => if b {
            "true"@
        } else {
            "false"@
        },
        JsonV::Number(s) => s,
        JsonV::Text(s) => s,
        JsonV::Array(_) => "__ARRAY__"@,
        JsonV::Object(_) => "__OBJECT__"@,
    }
}

/// The scalar rendering of a JSON value.
pub fn scalar_text(j: &Json) -> (s: String)
    ensures
        s@ == spec_scalar_text(j@),
{
    match j {
        Json::Null => String::from_str("null"),
        Json::Bool(b) => if *b {
            String::from_str("true")
        } else {
            String::from_str("false")
        },
        Json::Number(s) => s.clone(),
        Json::Text(s) => s.clone(),
        Json::Array(_) => String::from_str("__ARRAY__"),
        Json::Object(_) => String::from_str("__OBJECT__"),
    }
}

#[verifier::external_type_specification]
#[verifier::external_body]
pub struct ExValue(serde_json::Value);

/// Relies on the shape of `serde_json::Value`: each variant is carried over
/// one-for-one into the library's model, a number as the decimal rendering
/// its own `Display` gives it.
#[verifier::external_body]
fn value_to_json(v: serde_json::Value) -> Json {
    match v {
        serde_json::Value::Null => Json::Null,
        serde_json::Value::Bool(b) => Json::Bool(b),
        serde_json::Value::Number(n) => Json::Number(n.to_string()),
        serde_json::Value::String(s) => Json::Text(s),
        serde_json::Value::Array(a) => Json::Array(a.into_iter().map(value_to_json).collect()),
        serde_json::Value::Object(m) => Json::Object(
            m.into_iter().map(|(k, x)| (k, value_to_json(x))).collect(),
        ),
    }
}

/// What `serde_json` makes of a line of text: `None` when the text is not
/// a single valid JSON value, otherwise the view of its parse.  The result
/// depends on the text alone.
pub uninterp spec fn parsed_json(s: Seq<char>) -> Option<JsonV>;

/// Relies on `serde_json::from_str::<Value>`: `Ok` exactly on valid JSON
/// text, and the same text always parses to the same value.  The error
/// case hands back `serde_json`'s own diagnostic.
#[verifier::external_body]
pub fn parse_json(s: &str) -> (r: Result<Json, String>)
    ensures
        match r {
            Ok(j) => parsed_json(s@) == Some(j@),
            Err(_) => parsed_json(s@) is None,
        },
{
    match serde_json::from_str::<serde_json::Value>(s) {
        Ok(v) => Ok(value_to_json(v)),
        Err(e) => Err(e.to_string()),
    }
}


/// The two-space indentation at nesting depth `d`.
pub open spec fn spec_indent(d: int) -> Seq<char>
    decreases d,
{
    if d <= 0 {
        Seq::empty()
    } else {
        spec_indent(d - 1) + seq![' ', ' ']
    }
}

/// The next nesting depth; the depth cannot run past the greatest count
/// the counter holds.
pub open spec fn spec_deeper(d: u64) -> u64 {
    if d < 0xffff_ffff_ffff_ffff {
        (d + 1) as u64
    } else {
        d
    }
}

/// The indented JSON text of a value at nesting depth `d`: scalars as in
/// the compact form, each element or entry of a non-empty composite on a
/// line of its own.
pub open spec fn spec_pretty_text(j: JsonV, d: u64) -> Seq<char>
    decreases j, 0int,
{
    match j {
        JsonV::Null => "null"@,
        JsonV::Bool(b) => if b {
            "true"@
        } else {
            "false"@
        },
        JsonV::Number(s) => s,
        JsonV::Text(s) => quote_text(s),
        JsonV::Array(a) => if a.len() == 0 {
            "[]"@
        } else {
            seq!['[', '\n'] + spec_pretty_list_upto(a, a.len() as int, d) + seq!['\n']
                + spec_indent(d as int) + seq![']']
        },
        JsonV::Object(m) => if m.len() == 0 {
            "{}"@
        } else {
            seq!['{', '\n'] + spec_pretty_obj_upto(m, m.len() as int, d) + seq!['\n']
                + spec_indent(d as int) + seq!['}']
        },
    }
}

/// The first `n` array elements, each indented on its own line.
pub open spec fn spec_pretty_list_upto(items: Seq<JsonV>, n: int, d: u64) -> Seq<char>
    decreases items, n,
{
    if n <= 0 || n > items.len() {
        Seq::empty()
    } else if n == 1 {
        spec_indent(spec_deeper(d) as int) + spec_pretty_text(items[0], spec_deeper(d))
    } else {
        spec_pretty_list_upto(items, n - 1, d) + seq![',', '\n'] + spec_indent(
            spec_deeper(d) as int,
        ) + spec_pretty_text(items[n - 1], spec_deeper(d))
    }
}

/// One object entry in the indented form.
pub open spec fn spec_pretty_entry(e: (Seq<char>, JsonV), d: u64) -> Seq<char>
    decreases e, 0int,
{
    spec_indent(spec_deeper(d) as int) + quote_text(e.0) + seq![':', ' '] + spec_pretty_text(
        e.1,
        spec_deeper(d),
    )
}

/// The first `n` object entries, each indented on its own line.
pub open spec fn spec_pretty_obj_upto(entries: Seq<(Seq<char>, JsonV)>, n: int, d: u64) -> Seq<
    char,
>
    decreases entries, n,
{
    if n <= 0 || n > entries.len() {
        Seq::empty()
    } else if n == 1 {
        spec_pretty_entry(entries[0], d)
    } else {
        spec_pretty_obj_upto(entries, n - 1, d) + seq![',', '\n'] + spec_pretty_entry(
            entries[n - 1],
            d,
        )
    }
}

/// Appends the two-space indentation for depth `d` to `out`.
fn push_indent(out: &mut Vec<char>, d: u64)
    ensures
        final(out)@ == old(out)@ + spec_indent(d as int),
{
    let mut i: u64 = 0;
    while i < d
        invariant
            i <= d,
            out@ == old(out)@ + spec_indent(i as int),
        decreases d - i,
    {
        out.push(' ');
        out.push(' ');
        assert(out@ =~= old(out)@ + spec_indent(i as int + 1));
        i = i + 1;
    }
}

/// Appends the indented JSON text of `j` at depth `d` to `out`.
#[verifier::loop_isolation(false)]
#[verifier::rlimit(100)]
fn write_pretty(j: &Json, d: u64, out: &mut Vec<char>)
    ensures
        final(out)@ == old(out)@ + spec_pretty_text(j@, d),
    decreases j,
{
    match j {
        Json::Null => {
            push_str_chars(out, "null");
        },
        Json::Bool(b) => {
            if *b {
                push_str_chars(out, "true");
            } else {
                push_str_chars(out, "false");
            }
        },
        Json::Number(s) => {
            push_str_chars(out, s.as_str());
        },
        Json::Text(s) => {
            out.push('"');
            push_escaped(out, s.as_str());
            out.push('"');
            assert(out@ =~= old(out)@ + quote_text(s@));
        },
        Json::Array(a) => {
            proof {
                assert(decreases_to!(*j => *a));
            }
            write_pretty_list(a, d, out);
            assert(out@ =~= old(out)@ + spec_pretty_text(j@, d));
        },
        Json::Object(m) => {
            proof {
                assert(decreases_to!(*j => *m));
            }
            write_pretty_obj(m, d, out);
            assert(out@ =~= old(out)@ + spec_pretty_text(j@, d));
        },
    }
}

/// Appends the indented form of an array at depth `d` to `out`.
#[verifier::loop_isolation(false)]
#[verifier::rlimit(100)]
fn write_pretty_list(a: &Vec<Json>, d: u64, out: &mut Vec<char>)
    ensures
        final(out)@ == old(out)@ + spec_pretty_text(JsonV::Array(json_seq_view(a@)), d),
    decreases a,
{
    proof {
        lemma_json_seq_view(a@);
    }
    let ghost items = json_seq_view(a@);
    if a.len() == 0 {
        push_str_chars(out, "[]");
        proof {
            reveal_strlit("[]");
        }
        return ;
    }
    let deeper = if d < 0xffff_ffff_ffff_ffff {
        d + 1
    } else {
        d
    };
    out.push('[');
    out.push('\n');
    let ghost base = out@;
    let mut i: usize = 0;
    while i < a.len()
        invariant
            i <= a.len(),
            deeper == spec_deeper(d),
            items == json_seq_view(a@),
            items.len() == a@.len(),
            forall|k: int| 0 <= k < a@.len() ==> items[k] == json_view(a@[k]),
            out@ == base + spec_pretty_list_upto(items, i as int, d),
        decreases a.len() - i,
    {
        if i > 0 {
            out.push(',');
            out.push('\n');
        }
        push_indent(out, deeper);
        proof {
            assert(decreases_to!(*a => a@));
            assert(decreases_to!(a@ => a@[i as int]));
        }
        write_pretty(&a[i], deeper, out);
        proof {
            if i == 0 {
                assert(out@ =~= base + spec_pretty_list_upto(items, 1, d));
            } else {
                assert(out@ =~= base + spec_pretty_list_upto(items, i + 1, d));
            }
        }
        i = i + 1;
    }
    out.push('\n');
    push_indent(out, d);
    out.push(']');
    assert(out@ =~= old(out)@ + spec_pretty_text(JsonV::Array(items), d));
}

/// Appends the indented form of an object at depth `d` to `out`.
#[verifier::loop_isolation(false)]
#[verifier::rlimit(100)]
fn write_pretty_obj(m: &Vec<(String, Json)>, d: u64, out: &mut Vec<char>)
    ensures
        final(out)@ == old(out)@ + spec_pretty_text(JsonV::Object(json_map_view(m@)), d),
    decreases m,
{
    proof {
        lemma_json_map_view(m@);
    }
    let ghost entries = json_map_view(m@);
    if m.len() == 0 {
        push_str_chars(out, "{}");
        proof {
            reveal_strlit("{}");
        }
        return ;
    }
    let deeper = if d < 0xffff_ffff_ffff_ffff {
        d + 1
    } else {
        d
    };
    out.push('{');
    out.push('\n');
    let ghost base = out@;
    let mut i: usize = 0;
    while i < m.len()
        invariant
            i <= m.len(),
            deeper == spec_deeper(d),
            entries == json_map_view(m@),
            entries.len() == m@.len(),
            forall|k: int| 0 <= k < m@.len() ==> entries[k] == (m@[k].0@, json_view(m@[k].1)),
            out@ == base + spec_pretty_obj_upto(entries, i as int, d),
        decreases m.len() - i,
    {
        if i > 0 {
            out.push(',');
            out.push('\n');
        }
        push_indent(out, deeper);
        proof {
            assert(decreases_to!(*m => m@));
            assert(decreases_to!(m@ => m@[i as int]));
            assert(decreases_to!(m@[i as int] => m@[i as int].1));
        }
        let e = &m[i];
        out.push('"');
        push_escaped(out, e.0.as_str());
        out.push('"');
        out.push(':');
        out.push(' ');
        write_pretty(&e.1, deeper, out);
        proof {
            assert(out@ =~= base + spec_pretty_obj_upto(entries, i as int, d) + (if i > 0 {
                seq![',', '\n']
            } else {
                Seq::empty()
            }) + spec_pretty_entry(entries[i as int], d));
            if i == 0 {
                assert(out@ =~= base + spec_pretty_obj_upto(entries, 1, d));
            } else {
                assert(out@ =~= base + spec_pretty_obj_upto(entries, i + 1, d));
            }
        }
        i = i + 1;
    }
    out.push('\n');
    push_indent(out, d);
    out.push('}');
    assert(out@ =~= old(out)@ + spec_pretty_text(JsonV::Object(entries), d));
}

/// The indented JSON text of a value, for reading.
pub fn pretty_text(j: &Json) -> (s: String)
    ensures
        s@ == spec_pretty_text(j@, 0),
{
    let mut out: Vec<char> = Vec::new();
    write_pretty(j, 0, &mut out);
    crate::text::chars_to_string(&out)
}


/// A deep copy of an object's entries, equal in view to the original.
pub fn clone_entries(m: &Vec<(String, Json)>) -> (r: Vec<(String, Json)>)
    ensures
        json_map_view(r@) == json_map_view(m@),
{
    let mut out: Vec<(String, Json)> = Vec::new();
    let mut i: usize = 0;
    while i < m.len()
        invariant
            i <= m.len(),
            out@.len() == i,
            forall|k: int| 0 <= k < i ==> (#[trigger] out@[k]).0@ == m@[k].0@ && json_view(
                out@[k].1,
            ) == json_view(m@[k].1),
        decreases m.len() - i,
    {
        let e = &m[i];
        let k = e.0.clone();
        let v = clone_json(&e.1);
        out.push((k, v));
        i = i + 1;
    }
    proof {
        lemma_json_map_view(out@);
        lemma_json_map_view(m@);
        assert(json_map_view(out@) =~= json_map_view(m@));
    }
    out
}

} // verus!
