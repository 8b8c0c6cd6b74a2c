//! Ordering of timeline items within a line.
//!
//! Items are sorted non-decreasingly by actual start with a stable insertion
//! sort: items whose starts are equal keep their relative construction
//! order, which follows the precedence of the source lists.

use vstd::prelude::*;

use crate::gantt::{GanttItem, ItemModel, items_model};
use vstd::multiset::Multiset;

verus! {

/// Insert `x` behind every element whose actual start is no later than
/// `x`'s own, keeping everything else in place.
pub open spec fn insert_by_start(s: Seq<ItemModel>, x: ItemModel) -> Seq<ItemModel>
    decreases s.len(),
{
    if s.len() == 0 {
        seq![x]
    } else if s.last().time.start <= x.time.start {
        s.push(x)
    } else {
        insert_by_start(s.drop_last(), x).push(s.last())
    }
}

/// Stable insertion sort by actual start.
pub open spec fn sort_by_start(s: Seq<ItemModel>) -> Seq<ItemModel>
    decreases s.len(),
{
    if s.len() == 0 {
        Seq::empty()
    } else {
        insert_by_start(sort_by_start(s.drop_last()), s.last())
    }
}

/// Non-decreasing by actual start.
pub open spec fn sorted_by_start(s: Seq<ItemModel>) -> bool {
    forall|i: int, j: int| 0 <= i <= j < s.len() ==> s[i].time.start <= s[j].time.start
}

/// The subsequence of items whose actual start is exactly `t`, in order.
pub open spec fn with_start(s: Seq<ItemModel>, t: i64) -> Seq<ItemModel>
    decreases s.len(),
{
    if s.len() == 0 {
        Seq::empty()
    } else if s.last().time.start == t {
        with_start(s.drop_last(), t).push(s.last())
    } else {
        with_start(s.drop_last(), t)
    }
}

/// Inserting splits the sequence at any position `p` that separates the
/// elements no later than `x` from the strictly later ones.
proof fn lemma_insert_by_start_split(s: Seq<ItemModel>, x: ItemModel, p: int)
    requires
        0 <= p <= s.len(),
        forall|k: int| p <= k < s.len() ==> s[k].time.start > x.time.start,
        p > 0 ==> s[p - 1].time.start <= x.time.start,
    ensures
        insert_by_start(s, x) == s.take(p) + seq![x] + s.skip(p),
    decreases s.len(),
{
    if s.len() == 0 {
        assert(insert_by_start(s, x) =~= s.take(p) + seq![x] + s.skip(p));
    } else if p == s.len() {
        assert(insert_by_start(s, x) =~= s.take(p) + seq![x] + s.skip(p));
    } else {
        assert(s[s.len() - 1].time.start > x.time.start);
        lemma_insert_by_start_split(s.drop_last(), x, p);
        assert(insert_by_start(s, x) =~= s.take(p) + seq![x] + s.skip(p));
    }
}

/// Inserting into a sorted sequence keeps it sorted, adds exactly the new
/// element, and lengthens it by one.
proof fn lemma_insert_by_start_props(s: Seq<ItemModel>, x: ItemModel)
    requires
        sorted_by_start(s),
    ensures
        sorted_by_start(insert_by_start(s, x)),
        insert_by_start(s, x).to_multiset() == s.to_multiset().insert(x),
        insert_by_start(s, x).len() == s.len() + 1,
    decreases s.len(),
{
    broadcast use vstd::seq_lib::group_to_multiset_ensures;
    broadcast use vstd::multiset::group_multiset_axioms;

    if s.len() == 0 {
        assert(seq![x] =~= Seq::empty().push(x));
        assert(Seq::<ItemModel>::empty().to_multiset() =~= Multiset::empty());
    } else if s.last().time.start <= x.time.start {
        let r = s.push(x);
        assert forall|i: int, j: int| 0 <= i <= j < r.len() implies r[i].time.start
            <= r[j].time.start by {
            if j < s.len() {
            } else {
                if i < s.len() {
                    assert(s[i].time.start <= s[s.len() - 1].time.start);
                }
            }
        }
    } else {
        let dl = s.drop_last();
        assert(sorted_by_start(dl));
        lemma_insert_by_start_props(dl, x);
        let t = insert_by_start(dl, x);
        let r = t.push(s.last());
        assert forall|i: int| 0 <= i < t.len() implies t[i].time.start
            <= s.last().time.start by {
            assert(t.contains(t[i]));
            assert(t.to_multiset().count(t[i]) > 0);
            if t[i] == x {
            } else {
                assert(dl.to_multiset().count(t[i]) > 0);
                assert(dl.contains(t[i]));
                let k = choose|k: int| 0 <= k < dl.len() && dl[k] == t[i];
                assert(s[k].time.start <= s[s.len() - 1].time.start);
            }
        }
        assert forall|i: int, j: int| 0 <= i <= j < r.len() implies r[i].time.start
            <= r[j].time.start by {
            if j < t.len() {
            } else {
                if i < t.len() {
                    assert(t[i].time.start <= s.last().time.start);
                }
            }
        }
        assert(s =~= dl.push(s.last()));
        assert(s.to_multiset() == dl.to_multiset().insert(s.last()));
        assert(r.to_multiset() =~= s.to_multiset().insert(x));
    }
}

/// Law: sorting orders items non-decreasingly by actual start, and the
/// result holds exactly the items given to it.
pub proof fn lemma_sort_by_start_props(s: Seq<ItemModel>)
    ensures
        sorted_by_start(sort_by_start(s)),
        sort_by_start(s).to_multiset() == s.to_multiset(),
        sort_by_start(s).len() == s.len(),
    decreases s.len(),
{
    broadcast use vstd::seq_lib::group_to_multiset_ensures;

    if s.len() > 0 {
        lemma_sort_by_start_props(s.drop_last());
        lemma_insert_by_start_props(sort_by_start(s.drop_last()), s.last());
        assert(s =~= s.drop_last().push(s.last()));
        assert(s.to_multiset() == s.drop_last().to_multiset().insert(s.last()));
    }
}

/// Inserting keeps the new element behind every earlier item whose start
/// equals its own.
proof fn lemma_insert_by_start_stable(s: Seq<ItemModel>, x: ItemModel, t: i64)
    ensures
        with_start(insert_by_start(s, x), t) == if x.time.start == t {
            with_start(s, t).push(x)
        } else {
            with_start(s, t)
        },
    decreases s.len(),
{
    if s.len() == 0 {
        let r = seq![x];
        assert(r.drop_last() =~= Seq::<ItemModel>::empty());
        assert(r.last() == x);
        assert(with_start(Seq::<ItemModel>::empty(), t) =~= Seq::<ItemModel>::empty());
        assert(with_start(s, t) =~= Seq::<ItemModel>::empty());
        assert(insert_by_start(s, x) == r);
        if x.time.start == t {
            assert(with_start(r, t) =~= with_start(s, t).push(x));
        } else {
            assert(with_start(r, t) =~= with_start(s, t));
        }
    } else if s.last().time.start <= x.time.start {
        let r = s.push(x);
        assert(r.drop_last() =~= s);
    } else {
        lemma_insert_by_start_stable(s.drop_last(), x, t);
        let w = insert_by_start(s.drop_last(), x);
        let r = w.push(s.last());
        assert(r.drop_last() =~= w);
        if x.time.start == t {
            assert(s.last().time.start != t);
            assert(with_start(r, t) == with_start(w, t));
            assert(with_start(s, t) == with_start(s.drop_last(), t));
        } else {
            if s.last().time.start == t {
                assert(with_start(r, t) == with_start(w, t).push(s.last()));
                assert(with_start(s, t) == with_start(s.drop_last(), t).push(s.last()));
            } else {
                assert(with_start(r, t) == with_start(w, t));
                assert(with_start(s, t) == with_start(s.drop_last(), t));
            }
        }
    }
}

/// Law: the sort is stable. For every start instant `t`, the items whose
/// start is `t` appear in the sorted sequence in exactly the order in which
/// they were constructed.
pub proof fn lemma_sort_by_start_stable(s: Seq<ItemModel>, t: i64)
    ensures
        with_start(sort_by_start(s), t) == with_start(s, t),
    decreases s.len(),
{
    if s.len() > 0 {
        lemma_sort_by_start_stable(s.drop_last(), t);
        lemma_insert_by_start_stable(sort_by_start(s.drop_last()), s.last(), t);
        if s.last().time.start == t {
            assert(with_start(s, t) == with_start(s.drop_last(), t).push(s.last()));
        } else {
            assert(with_start(s, t) == with_start(s.drop_last(), t));
        }
    }
}

/// Sort a vector of items in place by actual start, stably.
pub fn sort_items(items: Vec<GanttItem>) -> (r: Vec<GanttItem>)
    ensures
        items_model(r@) == sort_by_start(items_model(items@)),
{
    let ghost orig: Seq<GanttItem> = items@;
    let mut rest = items;
    let mut out: Vec<GanttItem> = Vec::new();
    let mut i: usize = 0;
    let n = rest.len();
    proof {
        assert(n == orig.len());
        assert(rest@ =~= orig.skip(0));
        assert(items_model(out@) =~= sort_by_start(items_model(orig.take(0))));
    }
    while rest.len() > 0
        invariant
            i + rest@.len() == orig.len(),
            orig.len() <= usize::MAX,
            rest@ == orig.skip(i as int),
            items_model(out@) == sort_by_start(items_model(orig.take(i as int))),
        decreases rest@.len(),
    {
        let x = rest.remove(0);
        proof {
            assert(orig.skip(i as int)[0] == orig[i as int]);
            assert(rest@ =~= orig.skip(i as int + 1));
        }
        let mut p = out.len();
        while p > 0 && out[p - 1].time.start > x.time.start
            invariant
                p <= out.len(),
                forall|k: int| p <= k < out@.len() ==> out@[k].time.start > x.time.start,
            decreases p,
        {
            p = p - 1;
        }
        let ghost m = items_model(out@);
        proof {
            assert(forall|k: int| 0 <= k < m.len() ==> m[k].time == out@[k].time);
            lemma_insert_by_start_split(m, x@, p as int);
        }
        out.insert(p, x);
        proof {
            assert(items_model(out@) =~= m.take(p as int) + seq![x@] + m.skip(p as int));
            let next = items_model(orig.take(i as int + 1));
            assert(next.drop_last() =~= items_model(orig.take(i as int)));
            assert(next.last() == orig[i as int]@);
            assert(items_model(out@) == sort_by_start(next));
        }
        i = i + 1;
    }
    proof {
        assert(orig.take(i as int) =~= orig);
    }
    out
}

} // verus!
