//! Sorting records by field keys.
//!
//! Records are ordered by a list of keys, each read through the field
//! model; the sort itself is the stable insertion sort that
//! [`spec_sort`] describes, so the result is a deterministic reordering
//! of the input.

use vstd::prelude::*;
use core::cmp::Ordering;
use crate::message::FieldValue;
use crate::message::FieldValueV;
use crate::message::Message;
use crate::message::fv_opt_view;
use crate::message::spec_fv_cmp;
use crate::message::spec_get_value;

verus! {

/// Sorts records read from the input by the given field keys, the first
/// key deciding first.
#[derive(Debug)]
pub struct SortCommand {
    pub keys: Vec<String>,
}

/// Missing values come first; present values compare as field values do.
pub open spec fn spec_opt_fv_cmp(a: Option<FieldValueV>, b: Option<FieldValueV>) -> Ordering {
    match (a, b) {
        (None, None) => Ordering::Equal,
        (None, Some(_)) => Ordering::Less,
        (Some(_), None) => Ordering::Greater,
        (Some(x), Some(y)) => spec_fv_cmp(x, y),
    }
}

/// The views of a list of keys.
pub open spec fn spec_keys_view(keys: Seq<String>) -> Seq<Seq<char>> {
    Seq::new(keys.len(), |i: int| keys[i]@)
}

/// How two records compare under one key.
#[verifier::opaque]
pub open spec fn spec_key_cmp(a: Message, b: Message, key: Seq<char>) -> Ordering {
    spec_opt_fv_cmp(spec_get_value(a, key), spec_get_value(b, key))
}

/// How two records compare under a list of keys: the first key that does
/// not tie decides.
pub open spec fn spec_keys_cmp(a: Message, b: Message, keys: Seq<Seq<char>>) -> Ordering
    decreases keys.len(),
{
    if keys.len() == 0 {
        Ordering::Equal
    } else if spec_key_cmp(a, b, keys[0]) == Ordering::Equal {
        spec_keys_cmp(a, b, keys.drop_first())
    } else {
        spec_key_cmp(a, b, keys[0])
    }
}

/// Compares two optional field values.
pub fn opt_fv_cmp(a: &Option<FieldValue>, b: &Option<FieldValue>) -> (o: Ordering)
    ensures
        o == spec_opt_fv_cmp(fv_opt_view(*a), fv_opt_view(*b)),
{
    match (a, b) {
        (None, None) => Ordering::Equal,
        (None, Some(_)) => Ordering::Less,
        (Some(_), None) => Ordering::Greater,
        (Some(x), Some(y)) => x.compare(y),
    }
}

/// Compares two records under a list of keys.
#[verifier::loop_isolation(false)]
pub fn keys_cmp(a: &Message, b: &Message, keys: &Vec<String>) -> (o: Ordering)
    ensures
        o == spec_keys_cmp(*a, *b, spec_keys_view(keys@)),
{
    let ghost kv = spec_keys_view(keys@);
    let mut i: usize = 0;
    proof {
        reveal(spec_key_cmp);
        assert(kv.skip(0) =~= kv);
    }
    loop
        invariant
            i <= keys.len(),
            spec_keys_cmp(*a, *b, kv) == spec_keys_cmp(*a, *b, kv.skip(i as int)),
        decreases keys.len() - i,
    {
        if i == keys.len() {
            return Ordering::Equal;
        }
        let va = a.get_value(keys[i].as_str());
        let vb = b.get_value(keys[i].as_str());
        let c = opt_fv_cmp(&va, &vb);
        proof {
            assert(kv.skip(i as int)[0] == kv[i as int]);
            assert(kv.skip(i as int).drop_first() =~= kv.skip(i as int + 1));
        }
        if !matches!(c, Ordering::Equal) {
            return c;
        }
        i = i + 1;
    }
}

/// `a` strictly follows `b` under the keys.
pub fn is_greater(a: &Message, b: &Message, keys: &Vec<String>) -> (r: bool)
    ensures
        r == (spec_keys_cmp(*a, *b, spec_keys_view(keys@)) == Ordering::Greater),
{
    match keys_cmp(a, b, keys) {
        Ordering::Greater => true,
        _ => false,
    }
}

/// `x` inserted into `s` after every element it does not precede: the
/// stable insertion step.
pub open spec fn spec_insert_sorted(s: Seq<Message>, x: Message, keys: Seq<Seq<char>>) -> Seq<
    Message,
>
    decreases s.len(),
{
    if s.len() == 0 {
        seq![x]
    } else if spec_keys_cmp(s.last(), x, keys) == Ordering::Greater {
        spec_insert_sorted(s.drop_last(), x, keys).push(s.last())
    } else {
        s.push(x)
    }
}

/// The stable insertion sort of `s` under `keys`.
pub open spec fn spec_sort(s: Seq<Message>, keys: Seq<Seq<char>>) -> Seq<Message>
    decreases s.len(),
{
    if s.len() == 0 {
        s
    } else {
        spec_insert_sorted(spec_sort(s.drop_last(), keys), s.last(), keys)
    }
}

/// Adjacent elements are in order.
pub open spec fn spec_sorted(s: Seq<Message>, keys: Seq<Seq<char>>) -> bool {
    forall|i: int| 0 <= i < s.len() - 1 ==> spec_keys_cmp(#[trigger] s[i], s[i + 1], keys)
        != Ordering::Greater
}

#[verifier::rlimit(100)]
proof fn lemma_insert_at(pre: Seq<Message>, x: Message, keys: Seq<Seq<char>>, j: int)
    requires
        0 <= j <= pre.len(),
        forall|k: int| j <= k < pre.len() ==> spec_keys_cmp(#[trigger] pre[k], x, keys)
            == Ordering::Greater,
        j > 0 ==> spec_keys_cmp(pre[j - 1], x, keys) != Ordering::Greater,
    ensures
        spec_insert_sorted(pre, x, keys) == pre.take(j) + seq![x] + pre.skip(j),
    decreases pre.len(),
{
    if j == pre.len() {
        if j == 0 {
            assert(seq![x] =~= pre.take(0) + seq![x] + pre.skip(0));
        } else {
            assert(spec_keys_cmp(pre.last(), x, keys) != Ordering::Greater);
            assert(pre.push(x) =~= pre.take(j) + seq![x] + pre.skip(j));
        }
    } else {
        assert(spec_keys_cmp(pre[pre.len() - 1], x, keys) == Ordering::Greater);
        assert(forall|k: int| j <= k < pre.drop_last().len() ==> #[trigger] pre.drop_last()[k]
            == pre[k]);
        if j > 0 {
            assert(pre.drop_last()[j - 1] == pre[j - 1]);
        }
        lemma_insert_at(pre.drop_last(), x, keys, j);
        assert((pre.drop_last().take(j) + seq![x] + pre.drop_last().skip(j)).push(pre.last())
            =~= pre.take(j) + seq![x] + pre.skip(j));
    }
}

/// Sorts the records in place by the given keys: the result is exactly
/// the stable insertion sort of the input, hence the same records as a
/// multiset, and the input is left untouched when it was already sorted.
#[verifier::loop_isolation(false)]
#[verifier::rlimit(100)]
pub fn sort_messages(msgs: &mut Vec<Message>, keys: &Vec<String>)
    ensures
        final(msgs)@ == spec_sort(old(msgs)@, spec_keys_view(keys@)),
        final(msgs)@.to_multiset() == old(msgs)@.to_multiset(),
        spec_sorted(final(msgs)@, spec_keys_view(keys@)),
        spec_sorted(old(msgs)@, spec_keys_view(keys@)) ==> final(msgs)@ == old(msgs)@,
{
    let ghost kv = spec_keys_view(keys@);
    let ghost orig = msgs@;
    let n = msgs.len();
    let mut i: usize = 1;
    proof {
        if orig.len() > 0 {
            assert(orig.take(1).drop_last() =~= Seq::<Message>::empty());
            assert(spec_sort(Seq::<Message>::empty(), kv) == Seq::<Message>::empty());
            assert(spec_insert_sorted(Seq::<Message>::empty(), orig.take(1).last(), kv)
                =~= seq![orig.take(1).last()]);
            assert(orig.take(1) =~= seq![orig.take(1).last()]);
            assert(spec_sort(orig.take(1), kv) == orig.take(1));
        }
        assert(msgs@.take(if orig.len() > 0 { 1int } else { 0int }) =~= spec_sort(
            orig.take(if orig.len() > 0 { 1int } else { 0int }),
            kv,
        ));
        assert(msgs@.skip(if orig.len() > 0 { 1int } else { 0int }) =~= orig.skip(
            if orig.len() > 0 {
                1int
            } else {
                0int
            },
        ));
    }
    if n <= 1 {
        proof {
            if orig.len() == 0 {
                assert(spec_sort(orig, kv) =~= orig);
            } else {
                assert(orig.take(1) =~= orig);
                assert(spec_sort(orig, kv) =~= orig);
            }
            lemma_sort_props(orig, kv);
            lemma_sort_sorted(orig, kv);
        }
        return ;
    }
    while i < n
        invariant
            1 <= i <= n,
            n == msgs@.len(),
            msgs@.len() == orig.len(),
            msgs@.take(i as int) == spec_sort(orig.take(i as int), kv),
            msgs@.skip(i as int) == orig.skip(i as int),
        decreases n - i,
    {
        let mut j: usize = i;
        while j > 0 && is_greater(&msgs[j - 1], &msgs[i], keys)
            invariant
                0 <= j <= i,
                forall|k: int| j <= k < i ==> spec_keys_cmp(
                    #[trigger] msgs@[k],
                    msgs@[i as int],
                    kv,
                ) == Ordering::Greater,
            decreases j,
        {
            j = j - 1;
        }
        let ghost pre = msgs@.take(i as int);
        let ghost x = msgs@[i as int];
        let ghost rest = orig.skip(i as int + 1);
        proof {
            assert(msgs@.skip(i as int)[0] == msgs@[i as int]);
            assert(orig.skip(i as int)[0] == orig[i as int]);
            assert(x == orig[i as int]);
            assert(forall|k: int| j <= k < i ==> #[trigger] pre[k] == msgs@[k]);
            if j > 0 {
                assert(pre[j as int - 1] == msgs@[j as int - 1]);
            }
            lemma_insert_at(pre, x, kv, j as int);
        }
        let ghost before = msgs@;
        let moved = msgs.remove(i);
        proof {
            assert(moved == x);
            before.remove_ensures(i as int);
            assert forall|k: int| 0 <= k < msgs@.len() implies msgs@[k] == (pre + rest)[k] by {
                if k < i {
                    assert(msgs@[k] == before[k]);
                    assert(pre[k] == before[k]);
                } else {
                    assert(msgs@[k] == before[k + 1]);
                    assert(before.skip(i as int)[k + 1 - i] == before[k + 1]);
                    assert(orig.skip(i as int)[k + 1 - i] == orig[k + 1]);
                    assert(rest[k - i] == orig[k + 1]);
                }
            }
            assert(msgs@ =~= pre + rest);
        }
        let ghost mid = msgs@;
        msgs.insert(j, moved);
        proof {
            mid.insert_ensures(j as int, x);
            assert(mid == pre + rest);
            assert forall|k: int| 0 <= k < msgs@.len() implies msgs@[k] == ((pre.take(j as int)
                + seq![x] + pre.skip(j as int)) + rest)[k] by {
                if k < j {
                    assert(msgs@[k] == mid[k]);
                    assert(mid[k] == pre[k]);
                } else if k == j {
                    assert(msgs@[k] == x);
                } else {
                    assert(msgs@[k] == mid[k - 1]);
                }
            }
            assert(msgs@ =~= (pre.take(j as int) + seq![x] + pre.skip(j as int)) + rest);
            assert(msgs@.take(i as int + 1) =~= pre.take(j as int) + seq![x] + pre.skip(
                j as int,
            ));
            assert(orig.take(i as int + 1).drop_last() =~= orig.take(i as int));
            assert(orig.take(i as int + 1).last() == orig[i as int]);
            assert(msgs@.take(i as int + 1) =~= spec_sort(orig.take(i as int + 1), kv));
            assert(msgs@.skip(i as int + 1) =~= orig.skip(i as int + 1));
        }
        i = i + 1;
    }
    proof {
        assert(orig.take(n as int) =~= orig);
        assert(msgs@.take(n as int) =~= msgs@);
        lemma_sort_props(orig, kv);
        lemma_sort_sorted(orig, kv);
    }
}

/// The sort keeps the records: output and input hold the same multiset,
/// the output is sorted, and a sorted input comes back unchanged.
#[verifier::rlimit(100)]
pub proof fn lemma_sort_props(s: Seq<Message>, keys: Seq<Seq<char>>)
    ensures
        spec_sort(s, keys).to_multiset() == s.to_multiset(),
        spec_sort(s, keys).len() == s.len(),
        spec_sorted(s, keys) ==> spec_sort(s, keys) == s,
    decreases s.len(),
{
    if s.len() == 0 {
        s.to_multiset_ensures();
        spec_sort(s, keys).to_multiset_ensures();
    } else {
        lemma_sort_props(s.drop_last(), keys);
        lemma_insert_props(spec_sort(s.drop_last(), keys), s.last(), keys);
        s.drop_last().to_multiset_ensures();
        s.to_multiset_ensures();
        assert(s =~= s.drop_last().push(s.last()));
        assert(s.to_multiset() == s.drop_last().to_multiset().insert(s.last()));
        if spec_sorted(s, keys) {
            assert(forall|i: int| 0 <= i < s.drop_last().len() - 1 ==> spec_keys_cmp(
                #[trigger] s.drop_last()[i],
                s.drop_last()[i + 1],
                keys,
            ) != Ordering::Greater) by {
                assert(forall|i: int| 0 <= i < s.len() - 1 ==> spec_keys_cmp(
                    #[trigger] s[i],
                    s[i + 1],
                    keys,
                ) != Ordering::Greater);
            }
            assert(spec_sorted(s.drop_last(), keys));
            assert(spec_sort(s.drop_last(), keys) == s.drop_last());
            if s.len() >= 2 {
                assert(spec_keys_cmp(s[s.len() - 2], s[s.len() - 1], keys) != Ordering::Greater);
                assert(s.drop_last().last() == s[s.len() - 2]);
                assert(spec_insert_sorted(s.drop_last(), s.last(), keys) =~= s);
            } else {
                assert(spec_insert_sorted(s.drop_last(), s.last(), keys) =~= s);
            }
        }
    }
}

/// Inserting keeps the records and adds the new one.
#[verifier::rlimit(100)]
proof fn lemma_insert_props(s: Seq<Message>, x: Message, keys: Seq<Seq<char>>)
    ensures
        spec_insert_sorted(s, x, keys).to_multiset() == s.to_multiset().insert(x),
        spec_insert_sorted(s, x, keys).len() == s.len() + 1,
    decreases s.len(),
{
    s.to_multiset_ensures();
    spec_insert_sorted(s, x, keys).to_multiset_ensures();
    if s.len() == 0 {
        assert(seq![x] =~= Seq::<Message>::empty().push(x));
        Seq::<Message>::empty().to_multiset_ensures();
        assert(seq![x].to_multiset() == Seq::<Message>::empty().to_multiset().insert(x));
        assert(s.to_multiset() == Seq::<Message>::empty().to_multiset());
    } else if spec_keys_cmp(s.last(), x, keys) == Ordering::Greater {
        lemma_insert_props(s.drop_last(), x, keys);
        let inner = spec_insert_sorted(s.drop_last(), x, keys);
        inner.to_multiset_ensures();
        s.drop_last().to_multiset_ensures();
        assert(inner.push(s.last()).to_multiset() == inner.to_multiset().insert(s.last()));
        assert(s =~= s.drop_last().push(s.last()));
        assert(s.to_multiset() == s.drop_last().to_multiset().insert(s.last()));
        assert(inner.to_multiset() == s.drop_last().to_multiset().insert(x));
        assert(s.drop_last().to_multiset().insert(x).insert(s.last())
            =~= s.drop_last().to_multiset().insert(s.last()).insert(x));
    } else {
        assert(s.push(x).to_multiset() == s.to_multiset().insert(x));
    }
}

impl SortCommand {
    /// Sorts the records by this command's keys.
    pub fn sort(&self, msgs: &mut Vec<Message>)
        ensures
            final(msgs)@ == spec_sort(old(msgs)@, spec_keys_view(self.keys@)),
            final(msgs)@.to_multiset() == old(msgs)@.to_multiset(),
            spec_sorted(final(msgs)@, spec_keys_view(self.keys@)),
            spec_sorted(old(msgs)@, spec_keys_view(self.keys@)) ==> final(msgs)@ == old(msgs)@,
    {
        sort_messages(msgs, &self.keys);
    }
}


/// Swapping the operands of a key-list comparison swaps `Less` and
/// `Greater` and keeps `Equal`.
pub proof fn lemma_keys_cmp_antisym(a: Message, b: Message, keys: Seq<Seq<char>>)
    ensures
        spec_keys_cmp(a, b, keys) == Ordering::Greater <==> spec_keys_cmp(b, a, keys)
            == Ordering::Less,
        spec_keys_cmp(a, b, keys) == Ordering::Equal <==> spec_keys_cmp(b, a, keys)
            == Ordering::Equal,
    decreases keys.len(),
{
    reveal(spec_key_cmp);
    if keys.len() > 0 {
        match (spec_get_value(a, keys[0]), spec_get_value(b, keys[0])) {
            (Some(x), Some(y)) => {
                crate::message::lemma_fv_cmp_antisym(x, y);
            },
            _ => {},
        }
        lemma_keys_cmp_antisym(a, b, keys.drop_first());
    }
}

/// The last element after an insertion is the new element or the old last.
proof fn lemma_insert_last(s: Seq<Message>, x: Message, keys: Seq<Seq<char>>)
    ensures
        spec_insert_sorted(s, x, keys).last() == x || (s.len() > 0 && spec_insert_sorted(
            s,
            x,
            keys,
        ).last() == s.last()),
{
    if s.len() == 0 {
    } else if spec_keys_cmp(s.last(), x, keys) == Ordering::Greater {
    } else {
    }
}

/// Insertion keeps a sequence sorted.
#[verifier::rlimit(100)]
proof fn lemma_insert_keeps_sorted(s: Seq<Message>, x: Message, keys: Seq<Seq<char>>)
    requires
        spec_sorted(s, keys),
    ensures
        spec_sorted(spec_insert_sorted(s, x, keys), keys),
    decreases s.len(),
{
    if s.len() == 0 {
    } else if spec_keys_cmp(s.last(), x, keys) == Ordering::Greater {
        assert(forall|i: int| 0 <= i < s.drop_last().len() - 1 ==> spec_keys_cmp(
            #[trigger] s.drop_last()[i],
            s.drop_last()[i + 1],
            keys,
        ) != Ordering::Greater) by {
            assert(forall|i: int| 0 <= i < s.len() - 1 ==> spec_keys_cmp(
                #[trigger] s[i],
                s[i + 1],
                keys,
            ) != Ordering::Greater);
        }
        lemma_insert_keeps_sorted(s.drop_last(), x, keys);
        lemma_insert_last(s.drop_last(), x, keys);
        let inner = spec_insert_sorted(s.drop_last(), x, keys);
        let out = inner.push(s.last());
        lemma_insert_props(s.drop_last(), x, keys);
        if inner.last() == x {
            lemma_keys_cmp_antisym(s.last(), x, keys);
            assert(spec_keys_cmp(x, s.last(), keys) != Ordering::Greater);
        } else {
            assert(s.drop_last().last() == s[s.len() - 2]);
            assert(spec_keys_cmp(s[s.len() - 2], s[s.len() - 1], keys) != Ordering::Greater);
        }
        assert forall|i: int| 0 <= i < out.len() - 1 implies spec_keys_cmp(
            #[trigger] out[i],
            out[i + 1],
            keys,
        ) != Ordering::Greater by {
            if i < inner.len() - 1 {
                assert(out[i] == inner[i]);
                assert(out[i + 1] == inner[i + 1]);
            } else {
                assert(out[i] == inner.last());
                assert(out[i + 1] == s.last());
            }
        }
    } else {
        let out = s.push(x);
        assert forall|i: int| 0 <= i < out.len() - 1 implies spec_keys_cmp(
            #[trigger] out[i],
            out[i + 1],
            keys,
        ) != Ordering::Greater by {
            if i < s.len() - 1 {
                assert(out[i] == s[i]);
                assert(out[i + 1] == s[i + 1]);
            } else {
                assert(out[i] == s.last());
                assert(out[i + 1] == x);
            }
        }
    }
}

/// The sort's result is sorted.
pub proof fn lemma_sort_sorted(s: Seq<Message>, keys: Seq<Seq<char>>)
    ensures
        spec_sorted(spec_sort(s, keys), keys),
    decreases s.len(),
{
    if s.len() > 0 {
        lemma_sort_sorted(s.drop_last(), keys);
        lemma_insert_keeps_sorted(spec_sort(s.drop_last(), keys), s.last(), keys);
    }
}


/// Swapping the operands of a one-key comparison swaps `Less` and
/// `Greater` and keeps `Equal`.
proof fn lemma_key_cmp_antisym(a: Message, b: Message, key: Seq<char>)
    ensures
        spec_key_cmp(a, b, key) == Ordering::Greater <==> spec_key_cmp(b, a, key)
            == Ordering::Less,
        spec_key_cmp(a, b, key) == Ordering::Equal <==> spec_key_cmp(b, a, key)
            == Ordering::Equal,
{
    reveal(spec_key_cmp);
    match (spec_get_value(a, key), spec_get_value(b, key)) {
        (Some(x), Some(y)) => {
            crate::message::lemma_fv_cmp_antisym(x, y);
        },
        _ => {},
    }
}

/// The one-key order is transitive, and a strict step keeps the combined
/// step strict.
#[verifier::rlimit(100)]
proof fn lemma_key_cmp_trans(a: Message, b: Message, c: Message, key: Seq<char>)
    requires
        spec_key_cmp(a, b, key) != Ordering::Greater,
        spec_key_cmp(b, c, key) != Ordering::Greater,
    ensures
        spec_key_cmp(a, c, key) != Ordering::Greater,
        spec_key_cmp(a, b, key) == Ordering::Less || spec_key_cmp(b, c, key) == Ordering::Less
            ==> spec_key_cmp(a, c, key) == Ordering::Less,
{
    reveal(spec_key_cmp);
    match crate::message::spec_parse_field(key) {
        Some(f) => {
            crate::message::lemma_field_shape(a, b, f);
            crate::message::lemma_field_shape(b, c, f);
            match (spec_get_value(a, key), spec_get_value(b, key), spec_get_value(c, key)) {
                (Some(x), Some(y), Some(z)) => {
                    crate::message::lemma_fv_cmp_trans(x, y, z);
                },
                _ => {},
            }
        },
        None => {},
    }
}

/// The key-list order is transitive, and a strict step keeps the
/// combined step strict.
pub proof fn lemma_keys_cmp_trans(a: Message, b: Message, c: Message, keys: Seq<Seq<char>>)
    requires
        spec_keys_cmp(a, b, keys) != Ordering::Greater,
        spec_keys_cmp(b, c, keys) != Ordering::Greater,
    ensures
        spec_keys_cmp(a, c, keys) != Ordering::Greater,
        spec_keys_cmp(a, b, keys) == Ordering::Less || spec_keys_cmp(b, c, keys)
            == Ordering::Less ==> spec_keys_cmp(a, c, keys) == Ordering::Less,
    decreases keys.len(),
{
    if keys.len() > 0 {
        let k0 = keys[0];
        let c1 = spec_key_cmp(a, b, k0);
        let c2 = spec_key_cmp(b, c, k0);
        lemma_key_cmp_trans(a, b, c, k0);
        if c1 == Ordering::Equal && c2 == Ordering::Equal {
            lemma_key_cmp_antisym(a, b, k0);
            lemma_key_cmp_antisym(b, c, k0);
            lemma_key_cmp_trans(c, b, a, k0);
            lemma_key_cmp_antisym(a, c, k0);
            assert(spec_key_cmp(a, c, k0) == Ordering::Equal);
            lemma_keys_cmp_trans(a, b, c, keys.drop_first());
        }
    }
}

/// In a sorted run every record stands at or before every later one.
#[verifier::rlimit(100)]
pub proof fn lemma_sorted_pairwise(s: Seq<Message>, keys: Seq<Seq<char>>)
    requires
        spec_sorted(s, keys),
    ensures
        forall|i: int, j: int| 0 <= i < j < s.len() ==> #[trigger] spec_keys_cmp(
            s[i],
            s[j],
            keys,
        ) != Ordering::Greater,
{
    assert forall|i: int, j: int| 0 <= i < j < s.len() implies #[trigger] spec_keys_cmp(
        s[i],
        s[j],
        keys,
    ) != Ordering::Greater by {
        lemma_le_span(s, keys, i, j);
    }
}

#[verifier::rlimit(100)]
proof fn lemma_le_span(s: Seq<Message>, keys: Seq<Seq<char>>, i: int, j: int)
    requires
        spec_sorted(s, keys),
        0 <= i < j < s.len(),
    ensures
        spec_keys_cmp(s[i], s[j], keys) != Ordering::Greater,
    decreases j - i,
{
    if j == i + 1 {
        assert(spec_keys_cmp(s[i], s[i + 1], keys) != Ordering::Greater);
    } else {
        lemma_le_span(s, keys, i, j - 1);
        assert(spec_keys_cmp(s[j - 1], s[j - 1 + 1], keys) != Ordering::Greater);
        lemma_keys_cmp_trans(s[i], s[j - 1], s[j], keys);
    }
}

} // verus!
