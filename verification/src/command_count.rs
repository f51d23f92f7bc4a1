//! Counting field values.
//!
//! The count pipeline tallies how often each combination of the chosen
//! fields' values occurs: one counter level per key, children ordered by
//! their key so the output is deterministic.  A record without a value
//! for a key is tallied under `_OTHER_`.

use vstd::prelude::*;
use core::cmp::Ordering;
use crate::message::Message;
use crate::message::spec_get_value;
use crate::message::spec_render;
use crate::text::lex_cmp_seq;
use crate::text::lex_cmp_chars;
use crate::text::str_chars;

verus! {

/// A tally: a plain count, or one nested tally per value of the current
/// key.
#[derive(Debug)]
pub enum Counter {
    Value(u64),
    Children(Vec<(String, Counter)>),
}

/// The mathematical shape of a tally.
#[verifier::ext_equal]
pub enum CounterV {
    Value(u64),
    Children(Seq<(Seq<char>, CounterV)>),
}

/// The view of a tally.
pub open spec fn counter_view(c: Counter) -> CounterV
    decreases c,
{
    match c {
        Counter::Value(n) => CounterV::Value(n),
        Counter::Children(e) => CounterV::Children(counter_entries_view(e@)),
    }
}

/// The views of a tally's children.
pub open spec fn counter_entries_view(s: Seq<(String, Counter)>) -> Seq<(Seq<char>, CounterV)>
    decreases s,
{
    if s.len() == 0 {
        Seq::empty()
    } else {
        seq![(s[0].0@, counter_view(s[0].1))] + counter_entries_view(s.drop_first())
    }
}

impl View for Counter {
    type V = CounterV;

    open spec fn view(&self) -> CounterV {
        counter_view(*self)
    }
}

pub broadcast proof fn lemma_counter_entries_view(s: Seq<(String, Counter)>)
    ensures
        (#[trigger] counter_entries_view(s)).len() == s.len(),
        forall|i: int| 0 <= i < s.len() ==> counter_entries_view(s)[i] == (
            s[i].0@,
            counter_view(s[i].1),
        ),
    decreases s.len(),
{
    if s.len() > 0 {
        lemma_counter_entries_view(s.drop_first());
        assert(forall|i: int| 1 <= i < s.len() ==> s.drop_first()[i - 1] == s[i]);
    }
}

/// The value a record is tallied under for one key: the rendering of
/// what it answers, or `_OTHER_` when it answers nothing.
pub open spec fn spec_count_key(m: Message, key: Seq<char>) -> Seq<char> {
    match spec_get_value(m, key) {
        Some(v) => spec_render(v),
        None => "_OTHER_"@,
    }
}

/// The tally value of a record for one key.
pub fn count_key(m: &Message, key: &str) -> (r: String)
    ensures
        r@ == spec_count_key(*m, key@),
{
    match m.get_value(key) {
        Some(v) => v.render(),
        None => String::from_str("_OTHER_"),
    }
}

/// The child tally under `key`, if one exists: the scan walks entries
/// with smaller keys and stops at the first key not below `key`.
pub open spec fn spec_child(entries: Seq<(Seq<char>, CounterV)>, key: Seq<char>) -> Option<
    CounterV,
>
    decreases entries.len(),
{
    if entries.len() == 0 {
        None
    } else {
        match lex_cmp_seq(key, entries[0].0) {
            Ordering::Greater => spec_child(entries.drop_first(), key),
            Ordering::Equal => Some(entries[0].1),
            Ordering::Less => None,
        }
    }
}

/// `entries` with `key` bound to `val`, kept in key order: entries with
/// smaller keys stay in front, an entry with the same key is replaced.
pub open spec fn spec_put(
    entries: Seq<(Seq<char>, CounterV)>,
    key: Seq<char>,
    val: CounterV,
) -> Seq<(Seq<char>, CounterV)>
    decreases entries.len(),
{
    if entries.len() == 0 {
        seq![(key, val)]
    } else {
        match lex_cmp_seq(key, entries[0].0) {
            Ordering::Greater => seq![entries[0]] + spec_put(entries.drop_first(), key, val),
            Ordering::Equal => seq![(key, val)] + entries.drop_first(),
            Ordering::Less => seq![(key, val)] + entries,
        }
    }
}

/// A count one higher, capped at the counter's top.
pub open spec fn spec_bump(n: u64) -> u64 {
    if n < 0xffff_ffff_ffff_ffff {
        (n + 1) as u64
    } else {
        n
    }
}

/// A tally shallow enough for `d` more key levels: each `Children` level
/// consumes one.
pub open spec fn spec_depth_ok(c: CounterV, d: int) -> bool
    decreases c,
{
    match c {
        CounterV::Value(_) => true,
        CounterV::Children(e) => d > 0 && forall|i: int| 0 <= i < e.len() ==> spec_depth_ok(
            (#[trigger] e[i]).1,
            d - 1,
        ),
    }
}

/// One record tallied into a counter, for the keys from `at` on: at the
/// last level the count rises by one; above it, the record's value for
/// the current key picks the child, a fresh zero count standing in for a
/// missing child, and a plain count at a branching level gives way to an
/// empty set of children.
pub open spec fn spec_inc(c: CounterV, m: Message, keys: Seq<Seq<char>>, at: int) -> CounterV
    decreases keys.len() - at,
{
    if at >= keys.len() {
        match c {
            CounterV::Value(n) => CounterV::Value(spec_bump(n)),
            CounterV::Children(e) => CounterV::Children(e),
        }
    } else {
        let k = spec_count_key(m, keys[at]);
        let e = match c {
            CounterV::Value(_) => Seq::<(Seq<char>, CounterV)>::empty(),
            CounterV::Children(e) => e,
        };
        let child = match spec_child(e, k) {
            Some(x) => x,
            None => CounterV::Value(0),
        };
        CounterV::Children(spec_put(e, k, spec_inc(child, m, keys, at + 1)))
    }
}

proof fn lemma_put_found(
    entries: Seq<(Seq<char>, CounterV)>,
    key: Seq<char>,
    val: CounterV,
    p: int,
)
    requires
        0 <= p < entries.len(),
        forall|i: int| 0 <= i < p ==> lex_cmp_seq(key, (#[trigger] entries[i]).0)
            == Ordering::Greater,
        lex_cmp_seq(key, entries[p].0) == Ordering::Equal,
    ensures
        spec_put(entries, key, val) == entries.take(p) + seq![(key, val)] + entries.skip(p + 1),
        spec_child(entries, key) == Some(entries[p].1),
    decreases p,
{
    if p == 0 {
        assert(seq![(key, val)] + entries.drop_first() =~= entries.take(0) + seq![(key, val)]
            + entries.skip(1));
    } else {
        assert(lex_cmp_seq(key, entries[0].0) == Ordering::Greater);
        assert(forall|i: int| 0 <= i < entries.drop_first().len() ==> #[trigger] entries.drop_first()[i]
            == entries[i + 1]);
        lemma_put_found(entries.drop_first(), key, val, p - 1);
        assert(seq![entries[0]] + (entries.drop_first().take(p - 1) + seq![(key, val)]
            + entries.drop_first().skip(p)) =~= entries.take(p) + seq![(key, val)] + entries.skip(
            p + 1,
        ));
    }
}

proof fn lemma_put_fresh(entries: Seq<(Seq<char>, CounterV)>, key: Seq<char>, val: CounterV, p: int)
    requires
        0 <= p <= entries.len(),
        forall|i: int| 0 <= i < p ==> lex_cmp_seq(key, (#[trigger] entries[i]).0)
            == Ordering::Greater,
        p < entries.len() ==> lex_cmp_seq(key, entries[p].0) == Ordering::Less,
    ensures
        spec_put(entries, key, val) == entries.take(p) + seq![(key, val)] + entries.skip(p),
        spec_child(entries, key) is None,
    decreases entries.len(),
{
    if entries.len() == 0 {
        assert(seq![(key, val)] =~= entries.take(0) + seq![(key, val)] + entries.skip(0));
    } else if p == 0 {
        assert(seq![(key, val)] + entries =~= entries.take(0) + seq![(key, val)] + entries.skip(
            0,
        ));
    } else {
        assert(lex_cmp_seq(key, entries[0].0) == Ordering::Greater);
        assert(forall|i: int| 0 <= i < entries.drop_first().len() ==> #[trigger] entries.drop_first()[i]
            == entries[i + 1]);
        lemma_put_fresh(entries.drop_first(), key, val, p - 1);
        assert(seq![entries[0]] + (entries.drop_first().take(p - 1) + seq![(key, val)]
            + entries.drop_first().skip(p - 1)) =~= entries.take(p) + seq![(key, val)]
            + entries.skip(p));
    }
}

impl Counter {
    /// A fresh tally of zero.
    pub fn new() -> (r: Counter)
        ensures
            r@ == CounterV::Value(0),
    {
        Counter::Value(0)
    }

    /// Tallies one record under the keys from `at` on.
    #[verifier::loop_isolation(false)]
    #[verifier::rlimit(100)]
    pub fn increment(self, message: &Message, keys: &Vec<String>, at: usize) -> (r: Counter)
        requires
            at <= keys@.len(),
            spec_depth_ok(self@, keys@.len() - at),
        ensures
            r@ == spec_inc(self@, *message, crate::command_sort::spec_keys_view(keys@), at as int),
            spec_depth_ok(r@, keys@.len() - at),
        decreases keys@.len() - at,
    {
        let ghost kv = crate::command_sort::spec_keys_view(keys@);
        if at == keys.len() {
            match self {
                Counter::Value(n) => {
                    let bumped = if n < 0xffff_ffff_ffff_ffff {
                        n + 1
                    } else {
                        n
                    };
                    Counter::Value(bumped)
                },
                Counter::Children(e) => {
                    proof {
                        assert(false);
                    }
                    Counter::Children(e)
                },
            }
        } else {
            let key = count_key(message, keys[at].as_str());
            let mut entries = match self {
                Counter::Value(_) => Vec::<(String, Counter)>::new(),
                Counter::Children(e) => e,
            };
            proof {
                lemma_counter_entries_view(entries@);
                if entries@.len() == 0 {
                    assert(counter_entries_view(entries@) =~= Seq::<(Seq<char>, CounterV)>::empty());
                }
            }
            let ghost ev = counter_entries_view(entries@);
            let kc = str_chars(key.as_str());
            let mut p: usize = 0;
            let mut found_eq: bool = false;
            loop
                invariant
                    p <= entries.len(),
                    forall|i: int| 0 <= i < p ==> lex_cmp_seq(key@, (#[trigger] ev[i]).0)
                        == Ordering::Greater,
                    found_eq ==> p < entries.len() && lex_cmp_seq(key@, ev[p as int].0)
                        == Ordering::Equal,
                    !found_eq && p < entries.len() ==> true,
                decreases entries.len() - p + (if found_eq { 0int } else { 1int }),
            {
                if found_eq {
                    break ;
                }
                if p == entries.len() {
                    break ;
                }
                let ec = str_chars(entries[p].0.as_str());
                let c = lex_cmp_chars(&kc, &ec);
                match c {
                    Ordering::Greater => {
                        p = p + 1;
                    },
                    Ordering::Equal => {
                        found_eq = true;
                    },
                    Ordering::Less => {
                        break ;
                    },
                }
            }
            proof {
                assert(p <= entries.len());
            }
            if found_eq {
                let entry = entries.remove(p);
                let child = entry.1.increment(message, keys, at + 1);
                entries.insert(p, (key, child));
                proof {
                    lemma_put_found(ev, key@, spec_inc(ev[p as int].1, *message, kv, at + 1), p as int);
                    lemma_counter_entries_view(entries@);
                    assert(counter_entries_view(entries@) =~= spec_put(
                        ev,
                        key@,
                        spec_inc(ev[p as int].1, *message, kv, at + 1),
                    ));
                    assert forall|i: int| 0 <= i < counter_entries_view(entries@).len() implies
                        spec_depth_ok((#[trigger] counter_entries_view(entries@)[i]).1, keys@.len()
                        - at - 1) by {}
                }
                Counter::Children(entries)
            } else {
                let fresh = Counter::Value(0);
                let child = fresh.increment(message, keys, at + 1);
                entries.insert(p, (key, child));
                proof {
                    if p < ev.len() && lex_cmp_seq(key@, ev[p as int].0) != Ordering::Less {
                        assert(false);
                    }
                    lemma_put_fresh(ev, key@, spec_inc(CounterV::Value(0), *message, kv, at + 1), p as int);
                    lemma_counter_entries_view(entries@);
                    assert(counter_entries_view(entries@) =~= spec_put(
                        ev,
                        key@,
                        spec_inc(CounterV::Value(0), *message, kv, at + 1),
                    ));
                }
                Counter::Children(entries)
            }
        }
    }
}

/// The tally of a whole run of records under the given keys.
pub open spec fn spec_count_all(msgs: Seq<Message>, keys: Seq<Seq<char>>) -> CounterV
    decreases msgs.len(),
{
    if msgs.len() == 0 {
        CounterV::Value(0)
    } else {
        spec_inc(spec_count_all(msgs.drop_last(), keys), msgs.last(), keys, 0)
    }
}

/// Counts how often each combination of the chosen fields' values
/// occurs in the input records.
#[derive(Debug)]
pub struct CountCommand {
    pub keys: Vec<String>,
}

impl CountCommand {
    /// The tally of all the given records under this command's keys.
    #[verifier::loop_isolation(false)]
    pub fn count(&self, msgs: &Vec<Message>) -> (r: Counter)
        ensures
            r@ == spec_count_all(msgs@, crate::command_sort::spec_keys_view(self.keys@)),
    {
        let ghost kv = crate::command_sort::spec_keys_view(self.keys@);
        let mut counter = Counter::new();
        let mut i: usize = 0;
        proof {
            assert(msgs@.take(0) =~= Seq::<Message>::empty());
        }
        while i < msgs.len()
            invariant
                i <= msgs@.len(),
                counter@ == spec_count_all(msgs@.take(i as int), kv),
                spec_depth_ok(counter@, self.keys@.len() as int),
            decreases msgs@.len() - i,
        {
            let m = &msgs[i];
            counter = counter.increment(m, &self.keys, 0);
            proof {
                assert(msgs@.take(i as int + 1).drop_last() =~= msgs@.take(i as int));
                assert(msgs@.take(i as int + 1).last() == msgs@[i as int]);
            }
            i = i + 1;
        }
        proof {
            assert(msgs@.take(msgs@.len() as int) =~= msgs@);
        }
        counter
    }
}


/// The JSON form of a tally: a count as a number, a branching tally as
/// an object of its children.
pub open spec fn spec_counter_json(c: CounterV) -> crate::json::JsonV
    decreases c,
{
    match c {
        CounterV::Value(n) => crate::json::JsonV::Number(crate::text::spec_u64_text(n)),
        CounterV::Children(e) => crate::json::JsonV::Object(spec_counter_entries_json(e)),
    }
}

/// The JSON entries of a tally's children.
pub open spec fn spec_counter_entries_json(e: Seq<(Seq<char>, CounterV)>) -> Seq<(
    Seq<char>,
    crate::json::JsonV,
)>
    decreases e,
{
    if e.len() == 0 {
        Seq::empty()
    } else {
        seq![(e[0].0, spec_counter_json(e[0].1))] + spec_counter_entries_json(e.drop_first())
    }
}

pub broadcast proof fn lemma_counter_entries_json(e: Seq<(Seq<char>, CounterV)>)
    ensures
        (#[trigger] spec_counter_entries_json(e)).len() == e.len(),
        forall|i: int| 0 <= i < e.len() ==> spec_counter_entries_json(e)[i] == (
            e[i].0,
            spec_counter_json(e[i].1),
        ),
    decreases e.len(),
{
    if e.len() > 0 {
        lemma_counter_entries_json(e.drop_first());
        assert(forall|i: int| 1 <= i < e.len() ==> e.drop_first()[i - 1] == e[i]);
    }
}

impl Counter {
    /// The tally as the JSON value the output carries.
    #[verifier::loop_isolation(false)]
    #[verifier::rlimit(100)]
    pub fn to_json(&self) -> (r: crate::json::Json)
        ensures
            r@ == spec_counter_json(self@),
        decreases self,
    {
        match self {
            Counter::Value(n) => crate::json::Json::Number(crate::text::u64_text(*n)),
            Counter::Children(e) => {
                proof {
                    lemma_counter_entries_view(e@);
                }
                let ghost ev = counter_entries_view(e@);
                let mut out: Vec<(String, crate::json::Json)> = Vec::new();
                let mut i: usize = 0;
                while i < e.len()
                    invariant
                        i <= e@.len(),
                        out@.len() == i,
                        forall|k: int| 0 <= k < i ==> (#[trigger] out@[k]).0@ == e@[k].0@
                            && crate::json::json_view(out@[k].1) == spec_counter_json(
                            counter_view(e@[k].1),
                        ),
                    decreases e@.len() - i,
                {
                    let en = &e[i];
                    proof {
                        assert(decreases_to!(*self => *e));
                        assert(decreases_to!(*e => e@));
                        assert(decreases_to!(e@ => e@[i as int]));
                        assert(decreases_to!(e@[i as int] => e@[i as int].1));
                    }
                    let v = en.1.to_json();
                    out.push((en.0.clone(), v));
                    i = i + 1;
                }
                proof {
                    crate::json::lemma_json_map_view(out@);
                    lemma_counter_entries_json(ev);
                    assert(crate::json::json_map_view(out@) =~= spec_counter_entries_json(ev));
                }
                crate::json::Json::Object(out)
            },
        }
    }
}

} // verus!
