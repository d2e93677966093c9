//! Ordering and adjacency of native edits.
//!
//! Edits are stably sorted ascending by the four-part key
//! (start line, start column, end line, end column); consecutive sorted
//! edits whose ranges touch with no gap are flagged as adjoining.

use vstd::prelude::*;

use crate::model::NativeEdit;
use crate::model::NativeRange;
use crate::model::EOL_SENTINEL;

verus! {

/// The sort key of a native edit: its range as a four-part tuple.
pub open spec fn key_of(e: NativeEdit) -> (u64, u64, u64, u64) {
    (e.range.start.line, e.range.start.character, e.range.end.line, e.range.end.character)
}

/// Strict lexicographic order on range keys.
pub open spec fn key_lt(a: NativeRange, b: NativeRange) -> bool {
    a.start.line < b.start.line || (a.start.line == b.start.line && (a.start.character
        < b.start.character || (a.start.character == b.start.character && (a.end.line < b.end.line
        || (a.end.line == b.end.line && a.end.character < b.end.character)))))
}

/// Equality of range keys.
pub open spec fn key_eq(a: NativeRange, b: NativeRange) -> bool {
    a.start.line == b.start.line && a.start.character == b.start.character && a.end.line
        == b.end.line && a.end.character == b.end.character
}

/// Non-strict lexicographic order on range keys.
pub open spec fn key_le(a: NativeRange, b: NativeRange) -> bool {
    key_lt(a, b) || key_eq(a, b)
}

/// The edits stand in ascending key order.
pub open spec fn edits_sorted(s: Seq<NativeEdit>) -> bool {
    forall|i: int, j: int| 0 <= i <= j < s.len() ==> key_le(s[i].range, s[j].range)
}

/// `x` inserted into `s` directly before the first element whose key is
/// strictly greater — that is, after every element whose key is less than
/// or equal, which is what makes the sort stable.
pub open spec fn insert_sorted(s: Seq<NativeEdit>, x: NativeEdit) -> Seq<NativeEdit>
    decreases s.len(),
{
    if s.len() == 0 {
        seq![x]
    } else if key_lt(x.range, s[0].range) {
        seq![x] + s
    } else {
        seq![s[0]] + insert_sorted(s.drop_first(), x)
    }
}

/// The stable ascending sort of `s`: each element in turn inserted after
/// all elements with a key less than or equal to its own.
pub open spec fn sort_spec(s: Seq<NativeEdit>) -> Seq<NativeEdit>
    decreases s.len(),
{
    if s.len() == 0 {
        Seq::<NativeEdit>::empty()
    } else {
        insert_sorted(sort_spec(s.drop_last()), s.last())
    }
}

/// The subsequence of `s` whose elements carry exactly the key `k`, in order.
pub open spec fn filter_key(s: Seq<NativeEdit>, k: (u64, u64, u64, u64)) -> Seq<NativeEdit>
    decreases s.len(),
{
    if s.len() == 0 {
        Seq::<NativeEdit>::empty()
    } else {
        filter_key(s.drop_last(), k) + (if key_of(s.last()) == k {
            seq![s.last()]
        } else {
            Seq::<NativeEdit>::empty()
        })
    }
}

proof fn lemma_key_total(a: NativeRange, b: NativeRange)
    ensures
        key_lt(a, b) || key_lt(b, a) || key_eq(a, b),
{
}

proof fn lemma_key_lt_le_trans(a: NativeRange, b: NativeRange, c: NativeRange)
    requires
        key_lt(a, b),
        key_le(b, c),
    ensures
        key_lt(a, c),
{
}

proof fn lemma_insert_at(s: Seq<NativeEdit>, x: NativeEdit, p: int)
    requires
        0 <= p <= s.len(),
        forall|j: int| 0 <= j < p ==> !key_lt(x.range, s[j].range),
        p < s.len() ==> key_lt(x.range, s[p].range),
    ensures
        insert_sorted(s, x) == s.take(p) + seq![x] + s.skip(p),
    decreases s.len(),
{
    if p == 0 {
        if s.len() == 0 {
            assert(insert_sorted(s, x) =~= s.take(0) + seq![x] + s.skip(0));
        } else {
            assert(key_lt(x.range, s[0].range));
            assert(insert_sorted(s, x) =~= s.take(0) + seq![x] + s.skip(0));
        }
    } else {
        assert(!key_lt(x.range, s[0].range));
        let t = s.drop_first();
        assert forall|j: int| 0 <= j < p - 1 implies !key_lt(x.range, t[j].range) by {
            assert(t[j] == s[j + 1]);
        }
        assert(p - 1 < t.len() ==> key_lt(x.range, t[p - 1].range));
        lemma_insert_at(t, x, p - 1);
        assert(insert_sorted(s, x) == seq![s[0]] + insert_sorted(t, x));
        assert(seq![s[0]] + (t.take(p - 1) + seq![x] + t.skip(p - 1)) =~= s.take(p) + seq![x]
            + s.skip(p));
    }
}

proof fn lemma_insert_lower_bound(t: Seq<NativeEdit>, x: NativeEdit, b: NativeRange)
    requires
        key_le(b, x.range),
        forall|j: int| 0 <= j < t.len() ==> key_le(b, t[j].range),
    ensures
        forall|i: int|
            0 <= i < insert_sorted(t, x).len() ==> key_le(b, insert_sorted(t, x)[i].range),
    decreases t.len(),
{
    if t.len() == 0 {
        assert(insert_sorted(t, x) == seq![x]);
    } else if key_lt(x.range, t[0].range) {
        let r = insert_sorted(t, x);
        assert(r == seq![x] + t);
        assert forall|i: int| 0 <= i < r.len() implies key_le(b, r[i].range) by {
            if i > 0 {
                assert(r[i] == t[i - 1]);
            }
        }
    } else {
        let t2 = t.drop_first();
        assert forall|j: int| 0 <= j < t2.len() implies key_le(b, t2[j].range) by {
            assert(t2[j] == t[j + 1]);
        }
        lemma_insert_lower_bound(t2, x, b);
        let r = insert_sorted(t, x);
        assert(r == seq![t[0]] + insert_sorted(t2, x));
        assert forall|i: int| 0 <= i < r.len() implies key_le(b, r[i].range) by {
            if i > 0 {
                assert(r[i] == insert_sorted(t2, x)[i - 1]);
            }
        }
    }
}

proof fn lemma_insert_sorted_sorted(t: Seq<NativeEdit>, x: NativeEdit)
    requires
        edits_sorted(t),
    ensures
        edits_sorted(insert_sorted(t, x)),
    decreases t.len(),
{
    if t.len() == 0 {
        assert(insert_sorted(t, x) == seq![x]);
    } else if key_lt(x.range, t[0].range) {
        let r = insert_sorted(t, x);
        assert(r == seq![x] + t);
        assert forall|i: int, j: int| 0 <= i <= j < r.len() implies key_le(
            r[i].range,
            r[j].range,
        ) by {
            if i == 0 && j > 0 {
                assert(r[j] == t[j - 1]);
                assert(key_le(t[0].range, t[j - 1].range));
                lemma_key_lt_le_trans(x.range, t[0].range, t[j - 1].range);
            } else if i > 0 {
                assert(r[i] == t[i - 1]);
                assert(r[j] == t[j - 1]);
            }
        }
    } else {
        lemma_key_total(x.range, t[0].range);
        assert(key_le(t[0].range, x.range));
        let t2 = t.drop_first();
        assert forall|i: int, j: int| 0 <= i <= j < t2.len() implies key_le(
            t2[i].range,
            t2[j].range,
        ) by {
            assert(t2[i] == t[i + 1]);
            assert(t2[j] == t[j + 1]);
        }
        lemma_insert_sorted_sorted(t2, x);
        assert forall|j: int| 0 <= j < t2.len() implies key_le(t[0].range, t2[j].range) by {
            assert(t2[j] == t[j + 1]);
        }
        lemma_insert_lower_bound(t2, x, t[0].range);
        let r = insert_sorted(t, x);
        let r2 = insert_sorted(t2, x);
        assert(r == seq![t[0]] + r2);
        assert forall|i: int, j: int| 0 <= i <= j < r.len() implies key_le(
            r[i].range,
            r[j].range,
        ) by {
            if i == 0 && j > 0 {
                assert(r[j] == r2[j - 1]);
            } else if i > 0 {
                assert(r[i] == r2[i - 1]);
                assert(r[j] == r2[j - 1]);
            }
        }
    }
}

/// The stable sort yields edits in ascending key order.
pub proof fn lemma_sort_sorted(s: Seq<NativeEdit>)
    ensures
        edits_sorted(sort_spec(s)),
    decreases s.len(),
{
    if s.len() == 0 {
    } else {
        lemma_sort_sorted(s.drop_last());
        lemma_insert_sorted_sorted(sort_spec(s.drop_last()), s.last());
    }
}

proof fn lemma_filter_concat(a: Seq<NativeEdit>, b: Seq<NativeEdit>, k: (u64, u64, u64, u64))
    ensures
        filter_key(a + b, k) == filter_key(a, k) + filter_key(b, k),
    decreases b.len(),
{
    if b.len() == 0 {
        assert(a + b =~= a);
        assert(filter_key(b, k) == Seq::<NativeEdit>::empty());
        assert(filter_key(a, k) + filter_key(b, k) =~= filter_key(a, k));
    } else {
        assert((a + b).drop_last() =~= a + b.drop_last());
        assert((a + b).last() == b.last());
        lemma_filter_concat(a, b.drop_last(), k);
        assert(filter_key(a + b, k) == filter_key(a + b.drop_last(), k) + (if key_of(b.last())
            == k {
            seq![b.last()]
        } else {
            Seq::<NativeEdit>::empty()
        }));
        assert(filter_key(a, k) + filter_key(b.drop_last(), k) + (if key_of(b.last()) == k {
            seq![b.last()]
        } else {
            Seq::<NativeEdit>::empty()
        }) =~= filter_key(a, k) + filter_key(b, k));
    }
}

proof fn lemma_filter_none(t: Seq<NativeEdit>, k: (u64, u64, u64, u64))
    requires
        forall|j: int| 0 <= j < t.len() ==> key_of(t[j]) != k,
    ensures
        filter_key(t, k) == Seq::<NativeEdit>::empty(),
    decreases t.len(),
{
    if t.len() == 0 {
    } else {
        lemma_filter_none(t.drop_last(), k);
        assert(filter_key(t, k) =~= Seq::<NativeEdit>::empty());
    }
}

proof fn lemma_filter_single(x: NativeEdit, k: (u64, u64, u64, u64))
    ensures
        filter_key(seq![x], k) == (if key_of(x) == k {
            seq![x]
        } else {
            Seq::<NativeEdit>::empty()
        }),
{
    let s = seq![x];
    assert(s.drop_last() =~= Seq::<NativeEdit>::empty());
    assert(s.last() == x);
    assert(filter_key(s.drop_last(), k) == Seq::<NativeEdit>::empty());
    if key_of(x) == k {
        assert(filter_key(s, k) =~= seq![x]);
    } else {
        assert(filter_key(s, k) =~= Seq::<NativeEdit>::empty());
    }
}

proof fn lemma_insert_filter(t: Seq<NativeEdit>, x: NativeEdit, k: (u64, u64, u64, u64))
    requires
        edits_sorted(t),
    ensures
        filter_key(insert_sorted(t, x), k) == filter_key(t, k) + (if key_of(x) == k {
            seq![x]
        } else {
            Seq::<NativeEdit>::empty()
        }),
    decreases t.len(),
{
    let xpart: Seq<NativeEdit> = if key_of(x) == k {
        seq![x]
    } else {
        Seq::<NativeEdit>::empty()
    };
    lemma_filter_single(x, k);
    if t.len() == 0 {
        assert(insert_sorted(t, x) == seq![x]);
        assert(filter_key(t, k) + xpart =~= xpart);
    } else if key_lt(x.range, t[0].range) {
        assert(insert_sorted(t, x) == seq![x] + t);
        lemma_filter_concat(seq![x], t, k);
        if key_of(x) == k {
            assert forall|j: int| 0 <= j < t.len() implies key_of(t[j]) != k by {
                assert(key_le(t[0].range, t[j].range));
                lemma_key_lt_le_trans(x.range, t[0].range, t[j].range);
            }
            lemma_filter_none(t, k);
            assert(xpart + filter_key(t, k) =~= filter_key(t, k) + xpart);
        } else {
            assert(xpart + filter_key(t, k) =~= filter_key(t, k) + xpart);
        }
    } else {
        let t2 = t.drop_first();
        assert forall|i: int, j: int| 0 <= i <= j < t2.len() implies key_le(
            t2[i].range,
            t2[j].range,
        ) by {
            assert(t2[i] == t[i + 1]);
            assert(t2[j] == t[j + 1]);
        }
        lemma_insert_filter(t2, x, k);
        assert(insert_sorted(t, x) == seq![t[0]] + insert_sorted(t2, x));
        lemma_filter_concat(seq![t[0]], insert_sorted(t2, x), k);
        assert(t =~= seq![t[0]] + t2);
        lemma_filter_concat(seq![t[0]], t2, k);
        let hpart: Seq<NativeEdit> = if key_of(t[0]) == k {
            seq![t[0]]
        } else {
            Seq::<NativeEdit>::empty()
        };
        lemma_filter_single(t[0], k);
        assert(hpart + (filter_key(t2, k) + xpart) =~= (hpart + filter_key(t2, k)) + xpart);
    }
}

/// The orderer is stable: for any key, the subsequence of edits carrying
/// exactly that key is the same, in the same order, before and after the
/// sort — two edits with identical sort keys keep their relative order.
pub proof fn lemma_sort_stable(s: Seq<NativeEdit>, k: (u64, u64, u64, u64))
    ensures
        filter_key(sort_spec(s), k) == filter_key(s, k),
    decreases s.len(),
{
    if s.len() == 0 {
    } else {
        let s2 = s.drop_last();
        lemma_sort_stable(s2, k);
        lemma_sort_sorted(s2);
        lemma_insert_filter(sort_spec(s2), s.last(), k);
    }
}

fn range_lt(a: &NativeRange, b: &NativeRange) -> (r: bool)
    ensures
        r == key_lt(*a, *b),
{
    a.start.line < b.start.line || (a.start.line == b.start.line && (a.start.character
        < b.start.character || (a.start.character == b.start.character && (a.end.line < b.end.line
        || (a.end.line == b.end.line && a.end.character < b.end.character)))))
}

fn find_insert_pos(v: &Vec<NativeEdit>, x: &NativeRange) -> (p: usize)
    ensures
        p <= v@.len(),
        forall|j: int| 0 <= j < p ==> !key_lt(*x, v@[j].range),
        p < v@.len() ==> key_lt(*x, v@[p as int].range),
{
    let mut p: usize = 0;
    while p < v.len()
        invariant
            p <= v@.len(),
            forall|j: int| 0 <= j < p ==> !key_lt(*x, v@[j].range),
        decreases v@.len() - p,
    {
        if range_lt(x, &v[p].range) {
            return p;
        }
        p = p + 1;
    }
    p
}

/// Stably sorts the edits ascending by (start line, start column, end line,
/// end column).
pub fn sort_edits(edits: Vec<NativeEdit>) -> (r: Vec<NativeEdit>)
    ensures
        r@ == sort_spec(edits@),
        edits_sorted(r@),
{
    let ghost orig = edits@;
    let mut rest = edits;
    let mut out: Vec<NativeEdit> = Vec::new();
    proof {
        assert(rest@ =~= orig.skip(0));
        assert(out@ =~= sort_spec(orig.take(0)));
    }
    while rest.len() > 0
        invariant
            rest@.len() <= orig.len(),
            rest@ == orig.skip(orig.len() - rest@.len()),
            out@ == sort_spec(orig.take(orig.len() - rest@.len())),
        decreases rest@.len(),
    {
        let ghost done = orig.len() - rest@.len();
        let ghost out_old = out@;
        let x = rest.remove(0);
        proof {
            assert(x == orig[done]);
            assert(rest@ =~= orig.skip(done + 1));
        }
        let p = find_insert_pos(&out, &x.range);
        out.insert(p, x);
        proof {
            lemma_insert_at(out_old, x, p as int);
            assert(out@ =~= out_old.take(p as int) + seq![x] + out_old.skip(p as int));
            assert(orig.take(done + 1).drop_last() =~= orig.take(done));
            assert(orig.take(done + 1).last() == orig[done]);
            assert(out@ == sort_spec(orig.take(done + 1)));
        }
    }
    proof {
        assert(orig.take(orig.len() as int) =~= orig);
        lemma_sort_sorted(orig);
    }
    out
}

/// The two ranges adjoin: the first ends immediately before the second
/// starts, either on the same line or across a line boundary through the
/// end-of-line sentinel.
pub open spec fn spec_adjoin(a: NativeRange, b: NativeRange) -> bool {
    (a.end.line == b.start.line && a.end.character + 1 == b.start.character) || (a.end.line + 1
        == b.start.line && a.end.character == EOL_SENTINEL && b.start.character == 1)
}

/// The edit at `i` adjoins its successor.
pub open spec fn spec_adjoin_at(s: Seq<NativeEdit>, i: int) -> bool {
    0 <= i && i + 1 < s.len() && spec_adjoin(s[i].range, s[i + 1].range)
}

/// Decides whether two ranges adjoin.
pub fn ranges_adjoin(a: &NativeRange, b: &NativeRange) -> (r: bool)
    ensures
        r == spec_adjoin(*a, *b),
{
    (a.end.line == b.start.line && b.start.character > 0 && a.end.character == b.start.character
        - 1) || (b.start.line > 0 && a.end.line == b.start.line - 1 && a.end.character
        == EOL_SENTINEL && b.start.character == 1)
}

/// For each edit, whether it adjoins its successor; the last entry is
/// always false.
pub fn adjoining_flags(edits: &Vec<NativeEdit>) -> (flags: Vec<bool>)
    ensures
        flags@.len() == edits@.len(),
        forall|i: int| 0 <= i < edits@.len() ==> flags@[i] == spec_adjoin_at(edits@, i),
{
    let mut flags: Vec<bool> = Vec::new();
    let mut i: usize = 0;
    while i < edits.len()
        invariant
            i <= edits@.len(),
            flags@.len() == i,
            forall|j: int| 0 <= j < i ==> flags@[j] == spec_adjoin_at(edits@, j),
        decreases edits@.len() - i,
    {
        let f = if i + 1 < edits.len() {
            ranges_adjoin(&edits[i].range, &edits[i + 1].range)
        } else {
            false
        };
        flags.push(f);
        i = i + 1;
    }
    flags
}

/// A flagged pair leaves no gap: on the same line the second edit starts in
/// the column immediately after the first one's end, and across lines the
/// first ends at the sentinel of the line immediately above the second,
/// which starts in its first column.
pub proof fn lemma_adjoin_no_gap(a: NativeRange, b: NativeRange)
    requires
        spec_adjoin(a, b),
    ensures
        a.end.line == b.start.line ==> b.start.character - a.end.character == 1,
        a.end.line != b.start.line ==> b.start.line - a.end.line == 1 && a.end.character
            == EOL_SENTINEL && b.start.character == 1,
{
}

} // verus!
