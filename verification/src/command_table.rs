//! The computations behind the table view: how a JSON value renders in
//! a table cell, how long cells are cut, how column widths grow, and the
//! order of the finished rows — the leftmost column decides first, later
//! columns break ties.  Laying the rows out and printing them is
//! presentation, left to the caller.

use vstd::prelude::*;
use core::cmp::Ordering;
use crate::json::Json;
use crate::json::JsonV;
use crate::text::lex_cmp_seq;
use crate::text::lex_cmp_chars;
use crate::text::str_chars;
use crate::text::chars_to_string;

verus! {

/// Renders records as a table with one column per chosen field key.
#[derive(Debug)]
pub struct TableCommand {
    pub max_column_width: usize,
    pub column_keys: Vec<String>,
}

/// One character of a cell: a `|` is escaped so it cannot break the
/// table.
pub open spec fn spec_cell_char(c: char) -> Seq<char> {
    if c == '|' {
        seq!['\\', '|']
    } else {
        seq![c]
    }
}

/// The first `n` characters of a string as they appear in a cell.
pub open spec fn spec_cell_str_upto(s: Seq<char>, n: int) -> Seq<char>
    decreases n,
{
    if n <= 0 {
        Seq::empty()
    } else {
        spec_cell_str_upto(s, n - 1) + spec_cell_char(s[n - 1])
    }
}

/// How a JSON value appears in a table cell: null as nothing, scalars as
/// their token, a string with `|` escaped, an array as its elements
/// joined by `_`, an object as a placeholder.
pub open spec fn spec_cell_text(j: JsonV) -> Seq<char>
    decreases j, 0int,
{
    match j {
        JsonV::Null => Seq::empty(),
        JsonV::Bool(b) => if b {
            "true"@
        } else {
            "false"@
        },
        JsonV::Number(s) => s,
        JsonV::Text(s) => spec_cell_str_upto(s, s.len() as int),
        JsonV::Array(a) => spec_cells_upto(a, a.len() as int),
        JsonV::Object(_) => "<object>"@,
    }
}

/// The cell texts of the first `n` array elements, joined by `_`.
pub open spec fn spec_cells_upto(items: Seq<JsonV>, n: int) -> Seq<char>
    decreases items, n,
{
    if n <= 0 || n > items.len() {
        Seq::empty()
    } else if n == 1 {
        spec_cell_text(items[0])
    } else {
        spec_cells_upto(items, n - 1) + seq!['_'] + spec_cell_text(items[n - 1])
    }
}

/// Appends the cell form of `j` to `out`.
#[verifier::loop_isolation(false)]
#[verifier::rlimit(100)]
fn write_cell(j: &Json, out: &mut Vec<char>)
    ensures
        final(out)@ == old(out)@ + spec_cell_text(j@),
    decreases j,
{
    match j {
        Json::Null => {},
        Json::Bool(b) => {
            if *b {
                crate::json::push_str_chars(out, "true");
            } else {
                crate::json::push_str_chars(out, "false");
            }
        },
        Json::Number(s) => {
            crate::json::push_str_chars(out, s.as_str());
        },
        Json::Text(s) => {
            let cs = str_chars(s.as_str());
            let mut i: usize = 0;
            while i < cs.len()
                invariant
                    i <= cs.len(),
                    cs@ == s@,
                    out@ == old(out)@ + spec_cell_str_upto(s@, i as int),
                decreases cs.len() - i,
            {
                let c = cs[i];
                if c == '|' {
                    out.push('\\');
                    out.push('|');
                } else {
                    out.push(c);
                }
                assert(out@ =~= old(out)@ + spec_cell_str_upto(s@, i + 1));
                i = i + 1;
            }
        },
        Json::Array(a) => {
            proof {
                crate::json::lemma_json_seq_view(a@);
            }
            let ghost items = crate::json::json_seq_view(a@);
            let ghost base = out@;
            let mut i: usize = 0;
            while i < a.len()
                invariant
                    i <= a.len(),
                    items == crate::json::json_seq_view(a@),
                    items.len() == a@.len(),
                    forall|k: int| 0 <= k < a@.len() ==> items[k] == crate::json::json_view(
                        a@[k],
                    ),
                    out@ == base + spec_cells_upto(items, i as int),
                decreases a.len() - i,
            {
                if i > 0 {
                    out.push('_');
                }
                proof {
                    assert(decreases_to!(*j => *a));
                    assert(decreases_to!(*a => a@));
                    assert(decreases_to!(a@ => a@[i as int]));
                }
                write_cell(&a[i], out);
                proof {
                    if i == 0 {
                        assert(out@ =~= base + spec_cells_upto(items, 1));
                    } else {
                        assert(out@ =~= base + spec_cells_upto(items, i + 1));
                    }
                }
                i = i + 1;
            }
        },
        Json::Object(_) => {
            crate::json::push_str_chars(out, "<object>");
        },
    }
}

/// How a JSON value appears in a table cell.
pub fn cell_text(j: &Json) -> (s: String)
    ensures
        s@ == spec_cell_text(j@),
{
    let mut out: Vec<char> = Vec::new();
    write_cell(j, &mut out);
    chars_to_string(&out)
}

/// A cell cut to `max` characters, the cut marked by `...`.
pub open spec fn spec_truncated(s: Seq<char>, max: int) -> Seq<char> {
    if s.len() <= max {
        s
    } else {
        s.take(max) + "..."@
    }
}

/// Cuts a cell that runs past `max` characters.
pub fn truncate_cell(value: &str, max: usize) -> (r: String)
    ensures
        r@ == spec_truncated(value@, max as int),
{
    let cs = str_chars(value);
    if cs.len() <= max {
        return value.to_owned();
    }
    let mut out: Vec<char> = Vec::new();
    let mut i: usize = 0;
    while i < max
        invariant
            i <= max,
            max < cs.len(),
            cs@ == value@,
            out@ == value@.subrange(0, i as int),
        decreases max - i,
    {
        out.push(cs[i]);
        assert(out@ =~= value@.subrange(0, i + 1));
        i = i + 1;
    }
    let mut s = chars_to_string(&out);
    s.append("...");
    proof {
        assert(s@ =~= spec_truncated(value@, max as int));
    }
    s
}

/// One table column: its key and the widest cell seen so far.
#[derive(Debug)]
pub struct Column {
    pub key: String,
    pub width: usize,
}

impl Column {
    /// A column starts as wide as its key.
    pub fn new(key: &str) -> (r: Column)
        ensures
            r.key@ == key@,
            r.width == key@.len(),
    {
        let cs = str_chars(key);
        Column { key: key.to_owned(), width: cs.len() }
    }

    /// Widens the column to hold `value`.
    pub fn update_width(&mut self, value: &str)
        ensures
            final(self).key == old(self).key,
            final(self).width as int == if value@.len() > old(self).width {
                value@.len() as int
            } else {
                old(self).width as int
            },
    {
        let cs = str_chars(value);
        let n = cs.len();
        if n > self.width {
            self.width = n;
        }
    }
}


/// How two rows compare from cell `i` on: the first differing cell
/// decides, and when every shared cell ties the shorter row comes first.
pub open spec fn spec_row_cmp(a: Seq<String>, b: Seq<String>, i: int) -> Ordering
    decreases a.len() + b.len() - i,
{
    if i < 0 {
        Ordering::Equal
    } else if i >= a.len() && i >= b.len() {
        Ordering::Equal
    } else if i >= a.len() {
        Ordering::Less
    } else if i >= b.len() {
        Ordering::Greater
    } else if lex_cmp_seq(a[i]@, b[i]@) == Ordering::Equal {
        spec_row_cmp(a, b, i + 1)
    } else {
        lex_cmp_seq(a[i]@, b[i]@)
    }
}

/// Compares two rows cell by cell.
#[verifier::loop_isolation(false)]
pub fn row_cmp(a: &Vec<String>, b: &Vec<String>) -> (o: Ordering)
    ensures
        o == spec_row_cmp(a@, b@, 0),
{
    let mut i: usize = 0;
    loop
        invariant
            i <= a.len() || i <= b.len(),
            spec_row_cmp(a@, b@, 0) == spec_row_cmp(a@, b@, i as int),
        decreases a@.len() + b@.len() - i,
    {
        if i >= a.len() && i >= b.len() {
            return Ordering::Equal;
        }
        if i >= a.len() {
            return Ordering::Less;
        }
        if i >= b.len() {
            return Ordering::Greater;
        }
        let ca = str_chars(a[i].as_str());
        let cb = str_chars(b[i].as_str());
        let c = lex_cmp_chars(&ca, &cb);
        if !matches!(c, Ordering::Equal) {
            return c;
        }
        i = i + 1;
    }
}

/// `x` inserted into `s` after every row it does not precede: the stable
/// insertion step.
pub open spec fn spec_row_insert(s: Seq<Vec<String>>, x: Vec<String>) -> Seq<Vec<String>>
    decreases s.len(),
{
    if s.len() == 0 {
        seq![x]
    } else if spec_row_cmp(s.last()@, x@, 0) == Ordering::Greater {
        spec_row_insert(s.drop_last(), x).push(s.last())
    } else {
        s.push(x)
    }
}

/// The stable insertion sort of the rows.
pub open spec fn spec_row_sort(s: Seq<Vec<String>>) -> Seq<Vec<String>>
    decreases s.len(),
{
    if s.len() == 0 {
        s
    } else {
        spec_row_insert(spec_row_sort(s.drop_last()), s.last())
    }
}

/// Adjacent rows are in order.
pub open spec fn spec_rows_sorted(s: Seq<Vec<String>>) -> bool {
    forall|i: int| 0 <= i < s.len() - 1 ==> spec_row_cmp((#[trigger] s[i])@, s[i + 1]@, 0)
        != Ordering::Greater
}

/// Swapping the operands of a row comparison swaps `Less` and `Greater`
/// and keeps `Equal`.
proof fn lemma_row_cmp_antisym(a: Seq<String>, b: Seq<String>, i: int)
    ensures
        spec_row_cmp(a, b, i) == Ordering::Greater <==> spec_row_cmp(b, a, i) == Ordering::Less,
        spec_row_cmp(a, b, i) == Ordering::Equal <==> spec_row_cmp(b, a, i) == Ordering::Equal,
    decreases a.len() + b.len() - i,
{
    if 0 <= i < a.len() && i < b.len() {
        crate::text::lemma_lex_antisym(a[i]@, b[i]@);
        if lex_cmp_seq(a[i]@, b[i]@) == Ordering::Equal {
            lemma_row_cmp_antisym(a, b, i + 1);
        }
    }
}

proof fn lemma_row_insert_at(pre: Seq<Vec<String>>, x: Vec<String>, j: int)
    requires
        0 <= j <= pre.len(),
        forall|k: int| j <= k < pre.len() ==> spec_row_cmp((#[trigger] pre[k])@, x@, 0)
            == Ordering::Greater,
        j > 0 ==> spec_row_cmp(pre[j - 1]@, x@, 0) != Ordering::Greater,
    ensures
        spec_row_insert(pre, x) == pre.take(j) + seq![x] + pre.skip(j),
    decreases pre.len(),
{
    if j == pre.len() {
        if j == 0 {
            assert(seq![x] =~= pre.take(0) + seq![x] + pre.skip(0));
        } else {
            assert(spec_row_cmp(pre.last()@, x@, 0) != Ordering::Greater);
            assert(pre.push(x) =~= pre.take(j) + seq![x] + pre.skip(j));
        }
    } else {
        assert(spec_row_cmp(pre[pre.len() - 1]@, x@, 0) == Ordering::Greater);
        assert(forall|k: int| j <= k < pre.drop_last().len() ==> #[trigger] pre.drop_last()[k]
            == pre[k]);
        if j > 0 {
            assert(pre.drop_last()[j - 1] == pre[j - 1]);
        }
        lemma_row_insert_at(pre.drop_last(), x, j);
        assert((pre.drop_last().take(j) + seq![x] + pre.drop_last().skip(j)).push(pre.last())
            =~= pre.take(j) + seq![x] + pre.skip(j));
    }
}

/// The last row after an insertion is the new row or the old last.
proof fn lemma_row_insert_last(s: Seq<Vec<String>>, x: Vec<String>)
    ensures
        spec_row_insert(s, x).last() == x || (s.len() > 0 && spec_row_insert(s, x).last()
            == s.last()),
{
}

/// Insertion keeps the rows sorted.
#[verifier::rlimit(100)]
proof fn lemma_row_insert_keeps_sorted(s: Seq<Vec<String>>, x: Vec<String>)
    requires
        spec_rows_sorted(s),
    ensures
        spec_rows_sorted(spec_row_insert(s, x)),
        spec_row_insert(s, x).len() == s.len() + 1,
    decreases s.len(),
{
    if s.len() == 0 {
    } else if spec_row_cmp(s.last()@, x@, 0) == Ordering::Greater {
        assert(forall|i: int| 0 <= i < s.drop_last().len() - 1 ==> spec_row_cmp(
            (#[trigger] s.drop_last()[i])@,
            s.drop_last()[i + 1]@,
            0,
        ) != Ordering::Greater) by {
            assert(forall|i: int| 0 <= i < s.len() - 1 ==> spec_row_cmp(
                (#[trigger] s[i])@,
                s[i + 1]@,
                0,
            ) != Ordering::Greater);
        }
        lemma_row_insert_keeps_sorted(s.drop_last(), x);
        lemma_row_insert_last(s.drop_last(), x);
        let inner = spec_row_insert(s.drop_last(), x);
        let out = inner.push(s.last());
        if inner.last() == x {
            lemma_row_cmp_antisym(s.last()@, x@, 0);
            assert(spec_row_cmp(x@, s.last()@, 0) != Ordering::Greater);
        } else {
            assert(s.drop_last().last() == s[s.len() - 2]);
            assert(spec_row_cmp(s[s.len() - 2]@, s[s.len() - 1]@, 0) != Ordering::Greater);
        }
        assert forall|i: int| 0 <= i < out.len() - 1 implies spec_row_cmp(
            (#[trigger] out[i])@,
            out[i + 1]@,
            0,
        ) != Ordering::Greater by {
            if i < inner.len() - 1 {
                assert(out[i] == inner[i]);
                assert(out[i + 1] == inner[i + 1]);
            } else {
                assert(out[i] == inner.last());
                assert(out[i + 1] == s.last());
            }
        }
    } else {
        let out = s.push(x);
        assert forall|i: int| 0 <= i < out.len() - 1 implies spec_row_cmp(
            (#[trigger] out[i])@,
            out[i + 1]@,
            0,
        ) != Ordering::Greater by {
            if i < s.len() - 1 {
                assert(out[i] == s[i]);
                assert(out[i + 1] == s[i + 1]);
            } else {
                assert(out[i] == s.last());
                assert(out[i + 1] == x);
            }
        }
    }
}

/// The row sort's result is sorted.
pub proof fn lemma_row_sort_sorted(s: Seq<Vec<String>>)
    ensures
        spec_rows_sorted(spec_row_sort(s)),
        spec_row_sort(s).len() == s.len(),
    decreases s.len(),
{
    if s.len() > 0 {
        lemma_row_sort_sorted(s.drop_last());
        lemma_row_insert_keeps_sorted(spec_row_sort(s.drop_last()), s.last());
    }
}

/// `a` strictly follows `b` among the rows.
fn row_is_greater(a: &Vec<String>, b: &Vec<String>) -> (r: bool)
    ensures
        r == (spec_row_cmp(a@, b@, 0) == Ordering::Greater),
{
    match row_cmp(a, b) {
        Ordering::Greater => true,
        _ => false,
    }
}

/// Sorts the rows in place, the leftmost cell deciding first: the result
/// is exactly the stable insertion sort of the input, so equal rows keep
/// their order and the whole layout is deterministic.
#[verifier::loop_isolation(false)]
#[verifier::rlimit(100)]
pub fn sort_rows(rows: &mut Vec<Vec<String>>)
    ensures
        final(rows)@ == spec_row_sort(old(rows)@),
        spec_rows_sorted(final(rows)@),
{
    let ghost orig = rows@;
    let n = rows.len();
    let mut i: usize = 1;
    proof {
        if orig.len() > 0 {
            assert(orig.take(1).drop_last() =~= Seq::<Vec<String>>::empty());
            assert(spec_row_sort(Seq::<Vec<String>>::empty()) == Seq::<Vec<String>>::empty());
            assert(spec_row_insert(Seq::<Vec<String>>::empty(), orig.take(1).last())
                =~= seq![orig.take(1).last()]);
            assert(orig.take(1) =~= seq![orig.take(1).last()]);
            assert(spec_row_sort(orig.take(1)) == orig.take(1));
        }
        assert(rows@.take(if orig.len() > 0 { 1int } else { 0int }) =~= spec_row_sort(
            orig.take(if orig.len() > 0 { 1int } else { 0int }),
        ));
        assert(rows@.skip(if orig.len() > 0 { 1int } else { 0int }) =~= orig.skip(
            if orig.len() > 0 {
                1int
            } else {
                0int
            },
        ));
    }
    if n <= 1 {
        proof {
            if orig.len() == 0 {
                assert(spec_row_sort(orig) =~= orig);
            } else {
                assert(orig.take(1) =~= orig);
                assert(spec_row_sort(orig) =~= orig);
            }
            lemma_row_sort_sorted(orig);
        }
        return ;
    }
    while i < n
        invariant
            1 <= i <= n,
            n == rows@.len(),
            rows@.len() == orig.len(),
            rows@.take(i as int) == spec_row_sort(orig.take(i as int)),
            rows@.skip(i as int) == orig.skip(i as int),
        decreases n - i,
    {
        let mut j: usize = i;
        while j > 0 && row_is_greater(&rows[j - 1], &rows[i])
            invariant
                0 <= j <= i,
                forall|k: int| j <= k < i ==> spec_row_cmp(
                    (#[trigger] rows@[k])@,
                    rows@[i as int]@,
                    0,
                ) == Ordering::Greater,
            decreases j,
        {
            j = j - 1;
        }
        let ghost pre = rows@.take(i as int);
        let ghost x = rows@[i as int];
        let ghost rest = orig.skip(i as int + 1);
        proof {
            assert(rows@.skip(i as int)[0] == rows@[i as int]);
            assert(orig.skip(i as int)[0] == orig[i as int]);
            assert(x == orig[i as int]);
            assert(forall|k: int| j <= k < i ==> #[trigger] pre[k] == rows@[k]);
            if j > 0 {
                assert(pre[j as int - 1] == rows@[j as int - 1]);
            }
            lemma_row_insert_at(pre, x, j as int);
        }
        let ghost before = rows@;
        let moved = rows.remove(i);
        proof {
            assert(moved == x);
            before.remove_ensures(i as int);
            assert forall|k: int| 0 <= k < rows@.len() implies rows@[k] == (pre + rest)[k] by {
                if k < i {
                    assert(rows@[k] == before[k]);
                    assert(pre[k] == before[k]);
                } else {
                    assert(rows@[k] == before[k + 1]);
                    assert(before.skip(i as int)[k + 1 - i] == before[k + 1]);
                    assert(orig.skip(i as int)[k + 1 - i] == orig[k + 1]);
                    assert(rest[k - i] == orig[k + 1]);
                }
            }
            assert(rows@ =~= pre + rest);
        }
        let ghost mid = rows@;
        rows.insert(j, moved);
        proof {
            mid.insert_ensures(j as int, x);
            assert(mid == pre + rest);
            assert forall|k: int| 0 <= k < rows@.len() implies rows@[k] == ((pre.take(j as int)
                + seq![x] + pre.skip(j as int)) + rest)[k] by {
                if k < j {
                    assert(rows@[k] == mid[k]);
                    assert(mid[k] == pre[k]);
                } else if k == j {
                    assert(rows@[k] == x);
                } else {
                    assert(rows@[k] == mid[k - 1]);
                }
            }
            assert(rows@ =~= (pre.take(j as int) + seq![x] + pre.skip(j as int)) + rest);
            assert(rows@.take(i as int + 1) =~= pre.take(j as int) + seq![x] + pre.skip(
                j as int,
            ));
            assert(orig.take(i as int + 1).drop_last() =~= orig.take(i as int));
            assert(orig.take(i as int + 1).last() == orig[i as int]);
            assert(rows@.take(i as int + 1) =~= spec_row_sort(orig.take(i as int + 1)));
            assert(rows@.skip(i as int + 1) =~= orig.skip(i as int + 1));
        }
        i = i + 1;
    }
    proof {
        assert(orig.take(n as int) =~= orig);
        assert(rows@.take(n as int) =~= rows@);
        lemma_row_sort_sorted(orig);
    }
}

} // verus!
