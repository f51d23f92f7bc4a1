//! Character-level utilities shared by the parsers and the field model:
//! conversions between `&str`/`String` and `Vec<char>`, whitespace trimming,
//! substring search, and the lexicographic order on character sequences.

use vstd::prelude::*;
use vstd::string::*;
use core::cmp::Ordering;

verus! {

/// The whitespace characters that trimming strips (the ASCII range of
/// Unicode's white-space set, which is all that appears in these logs).
pub open spec fn is_ws_char(c: char) -> bool {
    c == ' ' || c == '\t' || c == '\n' || c == '\r' || c == '\u{b}' || c == '\u{c}'
}

pub fn is_ws(c: char) -> (r: bool)
    ensures
        r == is_ws_char(c),
{
    c == ' ' || c == '\t' || c == '\n' || c == '\r' || c == '\u{b}' || c == '\u{c}'
}

/// The characters of a string slice, in order.
pub fn str_chars(s: &str) -> (v: Vec<char>)
    ensures
        v@ == s@,
{
    let n = s.unicode_len();
    let mut v: Vec<char> = Vec::new();
    let mut i: usize = 0;
    while i < n
        invariant
            i <= n,
            n == s@.len(),
            v@ == s@.subrange(0, i as int),
        decreases n - i,
    {
        v.push(s.get_char(i));
        assert(v@ =~= s@.subrange(0, i + 1));
        i = i + 1;
    }
    assert(v@ =~= s@);
    v
}

/// Relies on `char::to_string`: returns a `String` holding exactly this
/// one character.
#[verifier::external_body]
fn char_to_string(c: char) -> (s: String)
    ensures
        s@ == seq![c],
{
    c.to_string()
}

/// A `String` holding exactly the given characters.
pub fn chars_to_string(v: &Vec<char>) -> (s: String)
    ensures
        s@ == v@,
{
    let mut s = String::new();
    let mut i: usize = 0;
    while i < v.len()
        invariant
            i <= v.len(),
            s@ == v@.subrange(0, i as int),
        decreases v.len() - i,
    {
        let piece = char_to_string(v[i]);
        s.append(piece.as_str());
        assert(s@ =~= v@.subrange(0, i + 1));
        i = i + 1;
    }
    assert(s@ =~= v@);
    s
}

/// Exact equality of two string slices.
pub fn str_eq(a: &str, b: &str) -> (r: bool)
    ensures
        r == (a@ == b@),
{
    let sa = a.to_owned();
    let sb = b.to_owned();
    sa == sb
}

/// Character order by code point; for UTF-8 text this agrees with the byte
/// order that `str`'s own comparison uses.
pub open spec fn char_lt(a: char, b: char) -> bool {
    (a as u32) < (b as u32)
}

/// Lexicographic comparison of two character sequences.
pub open spec fn lex_cmp_seq(a: Seq<char>, b: Seq<char>) -> Ordering
    decreases a.len(),
{
    if a.len() == 0 && b.len() == 0 {
        Ordering::Equal
    } else if a.len() == 0 {
        Ordering::Less
    } else if b.len() == 0 {
        Ordering::Greater
    } else if char_lt(a[0], b[0]) {
        Ordering::Less
    } else if char_lt(b[0], a[0]) {
        Ordering::Greater
    } else {
        lex_cmp_seq(a.drop_first(), b.drop_first())
    }
}

pub fn lex_cmp_chars(a: &Vec<char>, b: &Vec<char>) -> (o: Ordering)
    ensures
        o == lex_cmp_seq(a@, b@),
{
    proof {
        assert(a@.skip(0) =~= a@);
        assert(b@.skip(0) =~= b@);
    }
    let mut i: usize = 0;
    loop
        invariant
            i <= a.len(),
            i <= b.len(),
            lex_cmp_seq(a@, b@) == lex_cmp_seq(a@.skip(i as int), b@.skip(i as int)),
        decreases a.len() - i,
    {
        if i == a.len() && i == b.len() {
            return Ordering::Equal;
        }
        if i == a.len() {
            return Ordering::Less;
        }
        if i == b.len() {
            return Ordering::Greater;
        }
        let ca = a[i] as u32;
        let cb = b[i] as u32;
        if ca < cb {
            return Ordering::Less;
        }
        if cb < ca {
            return Ordering::Greater;
        }
        proof {
            assert(a@.skip(i as int).drop_first() =~= a@.skip(i as int + 1));
            assert(b@.skip(i as int).drop_first() =~= b@.skip(i as int + 1));
        }
        i = i + 1;
    }
}

/// Equal code points mean equal characters.
proof fn lemma_char_eq(a: char, b: char)
    requires
        (a as u32) == (b as u32),
    ensures
        a == b,
{
    vstd::utf8::char_u32_cast(a, a as u32);
    vstd::utf8::char_u32_cast(b, b as u32);
}

/// `Equal` means the sequences are the same.
pub proof fn lemma_lex_eq(a: Seq<char>, b: Seq<char>)
    ensures
        lex_cmp_seq(a, b) == Ordering::Equal <==> a == b,
    decreases a.len(),
{
    if a.len() == 0 && b.len() == 0 {
        assert(a =~= b);
    } else if a.len() == 0 || b.len() == 0 {
    } else if char_lt(a[0], b[0]) || char_lt(b[0], a[0]) {
        assert(a[0] != b[0]);
    } else {
        lemma_char_eq(a[0], b[0]);
        lemma_lex_eq(a.drop_first(), b.drop_first());
        if a.drop_first() == b.drop_first() {
            assert forall|j: int| 0 <= j < a.len() implies a[j] == b[j] by {
                if j > 0 {
                    assert(a.drop_first()[j - 1] == a[j]);
                    assert(b.drop_first()[j - 1] == b[j]);
                }
            }
            assert(a =~= b);
        }
        if a == b {
            assert(a.drop_first() =~= b.drop_first());
        }
    }
}

/// Swapping the arguments swaps `Less` and `Greater`.
pub proof fn lemma_lex_antisym(a: Seq<char>, b: Seq<char>)
    ensures
        lex_cmp_seq(a, b) == Ordering::Less <==> lex_cmp_seq(b, a) == Ordering::Greater,
        lex_cmp_seq(a, b) == Ordering::Equal <==> lex_cmp_seq(b, a) == Ordering::Equal,
    decreases a.len(),
{
    if a.len() != 0 && b.len() != 0 && !char_lt(a[0], b[0]) && !char_lt(b[0], a[0]) {
        lemma_lex_antisym(a.drop_first(), b.drop_first());
    }
}

/// The order is transitive.
pub proof fn lemma_lex_trans(a: Seq<char>, b: Seq<char>, c: Seq<char>)
    requires
        lex_cmp_seq(a, b) != Ordering::Greater,
        lex_cmp_seq(b, c) != Ordering::Greater,
    ensures
        lex_cmp_seq(a, c) != Ordering::Greater,
        lex_cmp_seq(a, b) == Ordering::Less || lex_cmp_seq(b, c) == Ordering::Less
            ==> lex_cmp_seq(a, c) == Ordering::Less,
    decreases a.len(),
{
    if a.len() == 0 {
        if c.len() == 0 && b.len() != 0 {
            assert(lex_cmp_seq(b, c) == Ordering::Greater);
        }
    } else if b.len() == 0 {
        assert(lex_cmp_seq(a, b) == Ordering::Greater);
    } else if c.len() == 0 {
        assert(lex_cmp_seq(b, c) == Ordering::Greater);
    } else {
        if char_lt(b[0], a[0]) {
            assert(lex_cmp_seq(a, b) == Ordering::Greater);
        } else if char_lt(c[0], b[0]) {
            assert(lex_cmp_seq(b, c) == Ordering::Greater);
        } else if char_lt(a[0], c[0]) {
            assert(lex_cmp_seq(a, c) == Ordering::Less);
        } else {
            lemma_char_eq(a[0], b[0]);
            lemma_char_eq(b[0], c[0]);
            lemma_lex_trans(a.drop_first(), b.drop_first(), c.drop_first());
        }
    }
}

/// The pattern `pat` occurs in `s` at position `i`.
pub open spec fn match_at(s: Seq<char>, pat: Seq<char>, i: int) -> bool {
    0 <= i && i + pat.len() <= s.len() && s.subrange(i, i + pat.len()) == pat
}

/// The first position at or after `from` where `pat` occurs in `s`.
pub open spec fn spec_find_from(s: Seq<char>, pat: Seq<char>, from: int) -> Option<int>
    decreases s.len() + 1 - from,
{
    if from < 0 || from + pat.len() > s.len() {
        None
    } else if match_at(s, pat, from) {
        Some(from)
    } else {
        spec_find_from(s, pat, from + 1)
    }
}

fn matches_at(v: &Vec<char>, pat: &Vec<char>, i: usize) -> (r: bool)
    requires
        i + pat@.len() <= v@.len(),
    ensures
        r == match_at(v@, pat@, i as int),
{
    let n = v.len();
    let mut k: usize = 0;
    while k < pat.len()
        invariant
            k <= pat.len(),
            n == v@.len(),
            i + pat@.len() <= v@.len(),
            forall|j: int| 0 <= j < k ==> v@[i + j] == pat@[j],
        decreases pat.len() - k,
    {
        assert(i + k < n);
        if v[i + k] != pat[k] {
            assert(v@.subrange(i as int, i + pat@.len())[k as int] != pat@[k as int]);
            return false;
        }
        k = k + 1;
    }
    assert(v@.subrange(i as int, i + pat@.len()) =~= pat@);
    true
}

/// The first occurrence of `pat` in `v` at or after `from`.
pub fn find_from(v: &Vec<char>, pat: &Vec<char>, from: usize) -> (r: Option<usize>)
    ensures
        match r {
            Some(i) => spec_find_from(v@, pat@, from as int) == Some(i as int),
            None => spec_find_from(v@, pat@, from as int) is None,
        },
{
    let mut i: usize = from;
    loop
        invariant
            from <= i,
            spec_find_from(v@, pat@, from as int) == spec_find_from(v@, pat@, i as int),
        decreases v@.len() + 1 - i,
    {
        if i > v.len() || pat.len() > v.len() - i {
            return None;
        }
        if matches_at(v, pat, i) {
            return Some(i);
        }
        proof {
            if pat@.len() == 0 {
                assert(v@.subrange(i as int, i as int) =~= pat@);
            }
        }
        i = i + 1;
    }
}

/// The sequence with leading whitespace removed.
pub open spec fn trim_start_seq(s: Seq<char>) -> Seq<char>
    decreases s.len(),
{
    if s.len() > 0 && is_ws_char(s[0]) {
        trim_start_seq(s.drop_first())
    } else {
        s
    }
}

/// The sequence with trailing whitespace removed.
pub open spec fn trim_end_seq(s: Seq<char>) -> Seq<char>
    decreases s.len(),
{
    if s.len() > 0 && is_ws_char(s[s.len() - 1]) {
        trim_end_seq(s.drop_last())
    } else {
        s
    }
}

/// The sequence with whitespace removed from both ends.
pub open spec fn trim_seq(s: Seq<char>) -> Seq<char> {
    trim_end_seq(trim_start_seq(s))
}

proof fn lemma_trim_start_skip(s: Seq<char>, i: int)
    requires
        0 <= i <= s.len(),
        forall|j: int| 0 <= j < i ==> is_ws_char(s[j]),
    ensures
        trim_start_seq(s) == trim_start_seq(s.skip(i)),
    decreases i,
{
    if i > 0 {
        assert(is_ws_char(s[0]));
        assert(s.drop_first() =~= s.skip(1));
        lemma_trim_start_skip(s.skip(1), i - 1);
        assert(s.skip(1).skip(i - 1) =~= s.skip(i));
    } else {
        assert(s.skip(0) =~= s);
    }
}

proof fn lemma_trim_end_take(s: Seq<char>, i: int)
    requires
        0 <= i <= s.len(),
        forall|j: int| i <= j < s.len() ==> is_ws_char(s[j]),
    ensures
        trim_end_seq(s) == trim_end_seq(s.take(i)),
    decreases s.len() - i,
{
    if i < s.len() {
        assert(is_ws_char(s[s.len() - 1]));
        assert(s.drop_last() =~= s.take(s.len() - 1));
        lemma_trim_end_take(s.take(s.len() - 1), i);
        assert(s.take(s.len() - 1).take(i) =~= s.take(i));
    } else {
        assert(s.take(i) =~= s);
    }
}

/// The characters of `v` with leading and trailing whitespace removed.
pub fn trim_chars(v: &Vec<char>) -> (r: Vec<char>)
    ensures
        r@ == trim_seq(v@),
{
    let n = v.len();
    let mut lo: usize = 0;
    while lo < n && is_ws(v[lo])
        invariant
            lo <= n,
            n == v@.len(),
            forall|j: int| 0 <= j < lo ==> is_ws_char(v@[j]),
        decreases n - lo,
    {
        lo = lo + 1;
    }
    let ghost st = v@.skip(lo as int);
    proof {
        lemma_trim_start_skip(v@, lo as int);
        if lo < n {
            assert(st[0] == v@[lo as int]);
            assert(!is_ws_char(st[0]));
        }
        assert(trim_start_seq(st) == st);
        assert(trim_start_seq(v@) == st);
    }
    let mut hi: usize = n;
    while hi > lo && is_ws(v[hi - 1])
        invariant
            lo <= hi <= n,
            n == v@.len(),
            forall|j: int| hi <= j < n ==> is_ws_char(v@[j]),
        decreases hi,
    {
        hi = hi - 1;
    }
    proof {
        assert forall|k: int| hi - lo <= k < st.len() implies is_ws_char(st[k]) by {
            assert(st[k] == v@[lo + k]);
        }
        lemma_trim_end_take(st, hi - lo as int);
        if hi == lo {
            assert(st.take(0) =~= Seq::<char>::empty());
            assert(trim_end_seq(st) =~= Seq::<char>::empty());
        } else {
            assert(st.take(hi - lo as int)[hi - lo - 1] == v@[hi - 1]);
            assert(!is_ws_char(st.take(hi - lo as int)[hi - lo - 1]));
            assert(trim_end_seq(st.take(hi - lo as int)) == st.take(hi - lo as int));
        }
    }
    let mut r: Vec<char> = Vec::new();
    proof {
        assert(r@ =~= v@.subrange(lo as int, lo as int));
    }
    let mut i: usize = lo;
    while i < hi
        invariant
            lo <= i <= hi <= n,
            n == v@.len(),
            r@ == v@.subrange(lo as int, i as int),
        decreases hi - i,
    {
        r.push(v[i]);
        assert(r@ =~= v@.subrange(lo as int, i + 1));
        i = i + 1;
    }
    proof {
        assert(v@.subrange(lo as int, hi as int) =~= st.take(hi - lo as int));
    }
    r
}

/// `pre` is a prefix of `s`.
pub open spec fn has_prefix(s: Seq<char>, pre: Seq<char>) -> bool {
    pre.len() <= s.len() && s.subrange(0, pre.len() as int) == pre
}

pub fn starts_with_chars(v: &Vec<char>, pre: &Vec<char>) -> (r: bool)
    ensures
        r == has_prefix(v@, pre@),
{
    if pre.len() > v.len() {
        return false;
    }
    matches_at(v, pre, 0)
}


/// What a `spec_find_from` result means: a hit is the first match at or
/// after `from`; `None` means there is none.
pub proof fn lemma_find_from_found(s: Seq<char>, pat: Seq<char>, from: int)
    requires
        0 <= from,
    ensures
        match spec_find_from(s, pat, from) {
            Some(i) => from <= i && i + pat.len() <= s.len() && match_at(s, pat, i) && forall|
                j: int,
            | from <= j < i ==> !match_at(s, pat, j),
            None => forall|j: int| from <= j && j + pat.len() <= s.len() ==> !match_at(s, pat, j),
        },
    decreases s.len() + 1 - from,
{
    if from + pat.len() > s.len() {
    } else if match_at(s, pat, from) {
    } else {
        lemma_find_from_found(s, pat, from + 1);
    }
}

/// Searching a suffix is searching the whole string from an offset.
pub proof fn lemma_find_from_shift(s: Seq<char>, pat: Seq<char>, c: int, f: int)
    requires
        0 <= c <= s.len(),
        0 <= f,
    ensures
        spec_find_from(s, pat, c + f) == match spec_find_from(s.skip(c), pat, f) {
            Some(i) => Some(i + c),
            None => None::<int>,
        },
    decreases s.len() + 1 - c - f,
{
    let t = s.skip(c);
    if f + pat.len() > t.len() {
        assert(c + f + pat.len() > s.len());
    } else {
        assert(t.subrange(f, f + pat.len()) =~= s.subrange(c + f, c + f + pat.len()));
        if match_at(t, pat, f) {
            assert(match_at(s, pat, c + f));
        } else {
            assert(!match_at(s, pat, c + f));
            lemma_find_from_shift(s, pat, c, f + 1);
        }
    }
}


/// The decimal digits of `n`, empty for zero.
pub open spec fn spec_dec_digits(n: int) -> Seq<char>
    decreases n,
{
    if n <= 0 {
        Seq::empty()
    } else {
        spec_dec_digits(n / 10).push(((0x30 + (n % 10)) as u8) as char)
    }
}

/// The decimal text of `n`.
pub open spec fn spec_u64_text(n: u64) -> Seq<char> {
    if n == 0 {
        seq!['0']
    } else {
        spec_dec_digits(n as int)
    }
}

/// Appends the decimal digits of `n` to `out`; nothing for zero.
fn dec_chars(n: u64, out: &mut Vec<char>)
    ensures
        final(out)@ == old(out)@ + spec_dec_digits(n as int),
    decreases n,
{
    if n == 0 {
        return ;
    }
    proof {
        assert(n as int / 10 < n as int) by (nonlinear_arith)
            requires
                n as int >= 1,
        ;
    }
    dec_chars(n / 10, out);
    let d = (n % 10) as u8;
    out.push((0x30 + d) as char);
}

/// The decimal text of `n`.
pub fn u64_text(n: u64) -> (s: String)
    ensures
        s@ == spec_u64_text(n),
{
    if n == 0 {
        let s = String::from_str("0");
        proof {
            reveal_strlit("0");
        }
        return s;
    }
    let mut out: Vec<char> = Vec::new();
    dec_chars(n, &mut out);
    chars_to_string(&out)
}

} // verus!
