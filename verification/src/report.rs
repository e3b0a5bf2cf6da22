//! The final report: one `PathCount` per top-level entry, ordered by
//! descending count with a stable insertion sort, so that entries with equal
//! counts keep the order in which they were produced.

use vstd::prelude::*;
use vstd::seq_lib::{to_multiset_build, to_multiset_insert};

verus! {

/// One row of the report: the non-blank-line total of a top-level entry and
/// the path it was computed for.
pub struct PathCount {
    pub count: usize,
    pub path: String,
}

/// Places `x` after every entry whose count is at least `x.count`, and before
/// the rest: the insertion step of a stable descending sort.
pub open spec fn insert_desc(s: Seq<PathCount>, x: PathCount) -> Seq<PathCount>
    decreases s.len(),
{
    if s.len() == 0 {
        seq![x]
    } else if s[0].count >= x.count {
        seq![s[0]] + insert_desc(s.drop_first(), x)
    } else {
        seq![x] + s
    }
}

/// The position `insert_desc` places `x` at: past the longest prefix whose
/// entries all have a count at least `x.count`.
spec fn insert_pos(s: Seq<PathCount>, x: PathCount) -> int
    decreases s.len(),
{
    if s.len() == 0 {
        0
    } else if s[0].count >= x.count {
        1 + insert_pos(s.drop_first(), x)
    } else {
        0
    }
}

/// A stable insertion sort by descending count: entries are taken left to
/// right and each is inserted after the entries already placed whose count
/// is at least its own.
pub open spec fn sort_desc(s: Seq<PathCount>) -> Seq<PathCount>
    decreases s.len(),
{
    if s.len() == 0 {
        Seq::empty()
    } else {
        insert_desc(sort_desc(s.drop_last()), s.last())
    }
}

/// Counts never increase along the sequence.
pub open spec fn sorted_desc(s: Seq<PathCount>) -> bool {
    forall|i: int, j: int| 0 <= i <= j < s.len() ==> s[i].count >= s[j].count
}

/// `insert_desc` is `Seq::insert` at `insert_pos`: every entry before that
/// position counts at least `x.count`, and the entry at it, if any, counts
/// strictly less.
proof fn lemma_insert_desc_at(s: Seq<PathCount>, x: PathCount)
    ensures
        0 <= insert_pos(s, x) <= s.len(),
        insert_desc(s, x) == s.insert(insert_pos(s, x), x),
        forall|j: int| 0 <= j < insert_pos(s, x) ==> #[trigger] s[j].count >= x.count,
        insert_pos(s, x) < s.len() ==> s[insert_pos(s, x)].count < x.count,
    decreases s.len(),
{
    let k = insert_pos(s, x);
    if s.len() == 0 {
        assert(insert_desc(s, x) =~= s.insert(0, x));
    } else if s[0].count >= x.count {
        let rest = s.drop_first();
        lemma_insert_desc_at(rest, x);
        let kr = insert_pos(rest, x);
        s.insert_ensures(k, x);
        rest.insert_ensures(kr, x);
        assert forall|i: int| 0 <= i < s.len() + 1 implies insert_desc(s, x)[i] == s.insert(
            k,
            x,
        )[i] by {
            if i == 0 {
            } else if i < k {
                assert(rest.insert(kr, x)[i - 1] == rest[i - 1]);
            } else if i == k {
                assert(rest.insert(kr, x)[kr] == x);
            } else {
                assert(rest.insert(kr, x)[(i - 2) + 1] == rest[i - 2]);
                assert(s.insert(k, x)[(i - 1) + 1] == s[i - 1]);
            }
        }
        assert(insert_desc(s, x) =~= s.insert(k, x));
        assert forall|j: int| 0 <= j < k implies #[trigger] s[j].count >= x.count by {
            if j > 0 {
                assert(rest[j - 1].count >= x.count);
            }
        }
        if k < s.len() {
            assert(rest[k - 1].count < x.count);
        }
    } else {
        assert(insert_desc(s, x) =~= s.insert(0, x));
    }
}

/// Inserting into a descending sequence with `insert_desc` keeps it
/// descending.
proof fn lemma_insert_desc_sorted(s: Seq<PathCount>, x: PathCount)
    requires
        sorted_desc(s),
    ensures
        sorted_desc(insert_desc(s, x)),
{
    lemma_insert_desc_at(s, x);
    let k = insert_pos(s, x);
    let t = insert_desc(s, x);
    s.insert_ensures(k, x);
    assert(t.len() == s.len() + 1);
    assert forall|i: int| k < i < t.len() implies #[trigger] t[i] == s[i - 1] by {
        assert(s.insert(k, x)[(i - 1) + 1] == s[i - 1]);
    }
    assert forall|i: int, j: int| 0 <= i <= j < t.len() implies t[i].count >= t[j].count by {
        if j > k && i <= k {
            assert(t[j] == s[j - 1]);
            if k < s.len() {
                assert(s[k].count >= s[j - 1].count || k == j - 1);
            }
        }
    }
}

/// The sorted report holds the same rows as the unsorted one: sorting only
/// permutes.
pub proof fn lemma_sort_desc_permutes(s: Seq<PathCount>)
    ensures
        sort_desc(s).to_multiset() == s.to_multiset(),
    decreases s.len(),
{
    if s.len() == 0 {
        assert(s =~= Seq::<PathCount>::empty());
    } else {
        let front = s.drop_last();
        lemma_sort_desc_permutes(front);
        lemma_insert_desc_at(sort_desc(front), s.last());
        to_multiset_insert(sort_desc(front), insert_pos(sort_desc(front), s.last()), s.last());
        to_multiset_build(front, s.last());
        assert(front.push(s.last()) =~= s);
    }
}

/// The sorted report is ordered by descending count.
pub proof fn lemma_sort_desc_sorted(s: Seq<PathCount>)
    ensures
        sorted_desc(sort_desc(s)),
    decreases s.len(),
{
    if s.len() == 0 {
    } else {
        lemma_sort_desc_sorted(s.drop_last());
        lemma_insert_desc_sorted(sort_desc(s.drop_last()), s.last());
    }
}

/// Orders the report rows by descending count with a stable insertion sort:
/// the result is exactly `sort_desc` of the input, so rows with equal counts
/// keep their relative order.
pub fn sort_by_count_desc(entries: Vec<PathCount>) -> (r: Vec<PathCount>)
    ensures
        r@ == sort_desc(entries@),
        sorted_desc(r@),
        r@.to_multiset() == entries@.to_multiset(),
{
    let ghost orig: Seq<PathCount> = entries@;
    let mut rest = entries;
    let mut r: Vec<PathCount> = Vec::new();
    let ghost mut k: int = 0;
    proof {
        assert(rest@ =~= orig.skip(0));
        assert(orig.take(0) =~= Seq::<PathCount>::empty());
    }
    while rest.len() > 0
        invariant
            0 <= k <= orig.len(),
            rest@ == orig.skip(k),
            r@ == sort_desc(orig.take(k)),
        decreases rest@.len(),
    {
        proof {
            assert(orig.skip(k)[0] == orig[k]);
            assert(orig.skip(k).remove(0) =~= orig.skip(k + 1));
        }
        let x = rest.remove(0);
        let mut pos: usize = 0;
        while pos < r.len() && r[pos].count >= x.count
            invariant
                pos <= r@.len(),
                forall|j: int| 0 <= j < pos ==> #[trigger] r@[j].count >= x.count,
            decreases r@.len() - pos,
        {
            pos = pos + 1;
        }
        proof {
            lemma_insert_desc_at(r@, x);
            let kk = insert_pos(r@, x);
            if pos < kk {
                assert(r@[pos as int].count >= x.count);
            }
            if kk < pos {
                assert(r@[kk].count >= x.count);
            }
            assert(pos == kk);
        }
        r.insert(pos, x);
        proof {
            assert(orig.take(k + 1).drop_last() =~= orig.take(k));
            assert(orig.take(k + 1).last() == orig[k]);
            assert(r@ == sort_desc(orig.take(k + 1)));
            k = k + 1;
        }
    }
    proof {
        assert(orig.take(k) =~= orig);
        lemma_sort_desc_sorted(orig);
        lemma_sort_desc_permutes(orig);
    }
    r
}

} // verus!
