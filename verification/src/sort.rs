//! A stable merge sort of records by their start addresses.
//!
//! What the sort returns is defined by insertion, one record after the
//! other. The sort itself halves and merges; that it returns the same is
//! proved here.

use vstd::prelude::*;

use crate::search::Located;
use crate::search::lemma_rank_is_split_point;
use crate::search::lemma_rank_splits;
use crate::search::rank;
use crate::search::sorted;

verus! {

/// `s` with `x` put behind every record that starts at or below the start of
/// `x`: a sorted sequence stays sorted, and records with equal starts keep the
/// order in which they were inserted.
pub open spec fn insert_sorted<T: Located>(s: Seq<T>, x: T) -> Seq<T> {
    s.insert(rank(s, x.start()) as int, x)
}

/// The records in ascending order of their start addresses. Records that
/// start at the same address keep the order in which they stand in `s`.
pub open spec fn sorted_by_start<T: Located>(s: Seq<T>) -> Seq<T>
    decreases s.len(),
{
    if s.len() == 0 {
        s
    } else {
        insert_sorted(sorted_by_start(s.drop_last()), s.last())
    }
}

/// Two sequences merged into one from their ends: the last record is the
/// last of `a` where that starts above the last of `b`, and the last of `b`
/// where not. Of two sorted sequences this is the sorted sequence of the
/// records of both, in which a record of `a` stands before the records of `b`
/// that start at the same address.
pub open spec fn merged<T: Located>(a: Seq<T>, b: Seq<T>) -> Seq<T>
    decreases a.len() + b.len(),
{
    if a.len() == 0 {
        b
    } else if b.len() == 0 {
        a
    } else if a.last().start() > b.last().start() {
        merged(a.drop_last(), b).push(a.last())
    } else {
        merged(a, b.drop_last()).push(b.last())
    }
}

/// Inserting into a sorted sequence keeps it sorted.
pub proof fn lemma_insert_sorted<T: Located>(s: Seq<T>, x: T)
    requires
        sorted(s),
    ensures
        sorted(insert_sorted(s, x)),
{
    lemma_rank_splits(s, x.start());
    let r = rank(s, x.start()) as int;
    let t = insert_sorted(s, x);
    assert forall|i: int, j: int| 0 <= i <= j < t.len() implies (#[trigger] t[i]).start() <= (#[trigger] t[j]).start() by {
        if i < r {
            assert(t[i] == s[i]);
        } else if i > r {
            assert(t[i] == s[i - 1]);
        }
        if j < r {
            assert(t[j] == s[j]);
        } else if j > r {
            assert(t[j] == s[j - 1]);
        }
    }
}

/// No more records start at or below an address than there are records.
pub proof fn lemma_rank_bounded<T: Located>(s: Seq<T>, addr: u64)
    ensures
        rank(s, addr) <= s.len(),
    decreases s.len(),
{
    if s.len() > 0 {
        lemma_rank_bounded(s.drop_last(), addr);
    }
}

/// A sorted sequence without its last record is sorted.
pub proof fn lemma_sorted_drop_last<T: Located>(s: Seq<T>)
    requires
        sorted(s),
        s.len() > 0,
    ensures
        sorted(s.drop_last()),
{
    let front = s.drop_last();
    assert forall|i: int, j: int| 0 <= i <= j < front.len() implies (#[trigger] front[i]).start() <= (
    #[trigger] front[j]).start() by {
        assert(front[i] == s[i] && front[j] == s[j]);
    }
}

/// A sorted sequence stays sorted when a record that starts at or above its
/// last one is put behind it.
pub proof fn lemma_sorted_push<T: Located>(s: Seq<T>, x: T)
    requires
        sorted(s),
        s.len() > 0 ==> s.last().start() <= x.start(),
    ensures
        sorted(s.push(x)),
{
    let t = s.push(x);
    assert forall|i: int, j: int| 0 <= i <= j < t.len() implies (#[trigger] t[i]).start() <= (
    #[trigger] t[j]).start() by {
        if j < s.len() {
            assert(t[i] == s[i] && t[j] == s[j]);
        } else if i < s.len() {
            assert(t[i] == s[i]);
            assert(s[i].start() <= s[s.len() - 1].start());
        }
    }
}

/// A record that starts at or above the last one of a sorted sequence is
/// inserted at its end.
pub proof fn lemma_insert_at_end<T: Located>(s: Seq<T>, x: T)
    requires
        sorted(s),
        s.len() > 0 ==> s.last().start() <= x.start(),
    ensures
        insert_sorted(s, x) == s.push(x),
{
    assert forall|i: int| 0 <= i < s.len() implies (#[trigger] s[i]).start() <= x.start() by {
        assert(s[i].start() <= s[s.len() - 1].start());
    }
    lemma_rank_is_split_point(s, x.start(), s.len() as int);
    assert(s.insert(s.len() as int, x) =~= s.push(x));
}

/// A record that starts below the last one of a sequence is inserted
/// somewhere before that last one.
pub proof fn lemma_insert_before_last<T: Located>(s: Seq<T>, x: T)
    requires
        s.len() > 0,
        x.start() < s.last().start(),
    ensures
        insert_sorted(s, x) == insert_sorted(s.drop_last(), x).push(s.last()),
{
    let front = s.drop_last();
    lemma_rank_bounded(front, x.start());
    let r = rank(front, x.start()) as int;
    assert(rank(s, x.start()) == r);
    assert(s.insert(r, x) =~= front.insert(r, x).push(s.last()));
}

/// Sorting keeps the number of records, and what it returns is sorted.
pub proof fn lemma_sorted_by_start<T: Located>(s: Seq<T>)
    ensures
        sorted(sorted_by_start(s)),
        sorted_by_start(s).len() == s.len(),
    decreases s.len(),
{
    if s.len() > 0 {
        lemma_sorted_by_start(s.drop_last());
        lemma_insert_sorted(sorted_by_start(s.drop_last()), s.last());
        lemma_rank_bounded(sorted_by_start(s.drop_last()), s.last().start());
    }
}

/// Sorting neither drops a record nor makes one up.
pub proof fn lemma_sort_keeps_members<T: Located>(s: Seq<T>, x: T)
    ensures
        sorted_by_start(s).contains(x) <==> s.contains(x),
    decreases s.len(),
{
    if s.len() > 0 {
        let front = s.drop_last();
        let done = sorted_by_start(front);
        let all = sorted_by_start(s);
        lemma_sort_keeps_members(front, x);
        lemma_rank_bounded(done, s.last().start());
        let r = rank(done, s.last().start()) as int;
        assert(all[r] == s.last());
        if s.contains(x) {
            let at = choose|at: int| 0 <= at < s.len() && s[at] == x;
            if at < front.len() {
                assert(front[at] == x);
                let k = choose|k: int| 0 <= k < done.len() && done[k] == x;
                if k < r {
                    assert(all[k] == done[k]);
                } else {
                    assert(all[k + 1] == done[k]);
                }
            }
        }
        if all.contains(x) {
            let k = choose|k: int| 0 <= k < all.len() && all[k] == x;
            if k < r {
                assert(all[k] == done[k]);
                assert(done.contains(x));
                let at = choose|at: int| 0 <= at < front.len() && front[at] == x;
                assert(s[at] == x);
            } else if k > r {
                assert(all[k] == done[k - 1]);
                assert(done.contains(x));
                let at = choose|at: int| 0 <= at < front.len() && front[at] == x;
                assert(s[at] == x);
            } else {
                assert(s[s.len() - 1] == x);
            }
        }
    }
}

/// Two sorted sequences merge into a sorted one that holds as many records
/// as both together and ends with the last record of one of them.
pub proof fn lemma_merged_sorted<T: Located>(a: Seq<T>, b: Seq<T>)
    requires
        sorted(a),
        sorted(b),
    ensures
        sorted(merged(a, b)),
        merged(a, b).len() == a.len() + b.len(),
        a.len() > 0 && (b.len() == 0 || a.last().start() > b.last().start()) ==> merged(a, b).last()
            == a.last(),
        b.len() > 0 && (a.len() == 0 || a.last().start() <= b.last().start()) ==> merged(
            a,
            b,
        ).last() == b.last(),
    decreases a.len() + b.len(),
{
    if a.len() > 0 && b.len() > 0 {
        if a.last().start() > b.last().start() {
            lemma_sorted_drop_last(a);
            lemma_merged_sorted(a.drop_last(), b);
            if a.len() > 1 {
                assert(a.drop_last().last() == a[a.len() - 2]);
                assert(a[a.len() - 2].start() <= a[a.len() - 1].start());
            }
            lemma_sorted_push(merged(a.drop_last(), b), a.last());
        } else {
            lemma_sorted_drop_last(b);
            lemma_merged_sorted(a, b.drop_last());
            if b.len() > 1 {
                assert(b.drop_last().last() == b[b.len() - 2]);
                assert(b[b.len() - 2].start() <= b[b.len() - 1].start());
            }
            lemma_sorted_push(merged(a, b.drop_last()), b.last());
        }
    }
}

/// Merging a sorted sequence with a single record inserts the record.
pub proof fn lemma_merged_with_one<T: Located>(a: Seq<T>, x: T)
    requires
        sorted(a),
    ensures
        merged(a, seq![x]) == insert_sorted(a, x),
    decreases a.len(),
{
    let one = seq![x];
    assert(one.last() == x);
    assert(one.drop_last() =~= Seq::<T>::empty());
    if a.len() == 0 {
        assert(a.insert(0, x) =~= one);
    } else if a.last().start() > x.start() {
        lemma_sorted_drop_last(a);
        lemma_merged_with_one(a.drop_last(), x);
        lemma_insert_before_last(a, x);
    } else {
        lemma_insert_at_end(a, x);
        assert(merged(a, Seq::<T>::empty()) == a);
        assert(merged(a, one) == merged(a, one.drop_last()).push(x));
    }
}

/// Inserting a record into the merge of two sorted sequences is merging the
/// first with the second after the record was inserted there.
pub proof fn lemma_insert_into_merged<T: Located>(a: Seq<T>, b: Seq<T>, x: T)
    requires
        sorted(a),
        sorted(b),
    ensures
        insert_sorted(merged(a, b), x) == merged(a, insert_sorted(b, x)),
    decreases a.len() + b.len(),
{
    let grown = insert_sorted(b, x);
    lemma_rank_bounded(b, x.start());
    lemma_insert_sorted(b, x);
    if b.len() == 0 {
        assert(grown =~= seq![x]);
        if a.len() > 0 {
            lemma_merged_with_one(a, x);
        }
    } else if a.len() == 0 {
    } else {
        lemma_merged_sorted(a, b);
        let m = merged(a, b);
        if a.last().start() > b.last().start() {
            if x.start() >= a.last().start() {
                lemma_insert_at_end(b, x);
                lemma_insert_at_end(m, x);
                assert(grown.last() == x);
                assert(grown.drop_last() =~= b);
            } else {
                lemma_sorted_drop_last(a);
                lemma_insert_before_last(m, x);
                assert(m.drop_last() =~= merged(a.drop_last(), b));
                lemma_insert_into_merged(a.drop_last(), b, x);
                if x.start() >= b.last().start() {
                    lemma_insert_at_end(b, x);
                    assert(grown.last() == x);
                } else {
                    lemma_insert_before_last(b, x);
                    assert(grown.last() == b.last());
                }
            }
        } else {
            if x.start() >= b.last().start() {
                lemma_insert_at_end(b, x);
                lemma_insert_at_end(m, x);
                assert(grown.last() == x);
                assert(grown.drop_last() =~= b);
            } else {
                lemma_sorted_drop_last(b);
                lemma_insert_before_last(m, x);
                assert(m.drop_last() =~= merged(a, b.drop_last()));
                lemma_insert_into_merged(a, b.drop_last(), x);
                lemma_insert_before_last(b, x);
                assert(grown.last() == b.last());
                assert(grown.drop_last() =~= insert_sorted(b.drop_last(), x));
            }
        }
    }
}

/// Sorting two sequences and merging them sorts their concatenation.
pub proof fn lemma_sort_concat<T: Located>(a: Seq<T>, b: Seq<T>)
    ensures
        sorted_by_start(a + b) == merged(sorted_by_start(a), sorted_by_start(b)),
    decreases b.len(),
{
    lemma_sorted_by_start(a);
    if b.len() == 0 {
        assert(a + b =~= a);
    } else {
        let front = b.drop_last();
        assert((a + b).drop_last() =~= a + front);
        assert((a + b).last() == b.last());
        lemma_sort_concat(a, front);
        lemma_sorted_by_start(front);
        lemma_insert_into_merged(sorted_by_start(a), sorted_by_start(front), b.last());
    }
}

/// Merges two sorted vectors, filling the result from its end.
fn merge<T: Located + Copy>(a: &Vec<T>, b: &Vec<T>) -> (r: Vec<T>)
    requires
        a.len() + b.len() <= usize::MAX,
    ensures
        r@ == merged(a@, b@),
{
    let n: usize = a.len() + b.len();
    let mut out: Vec<T> = Vec::new();
    if n == 0 {
        assert(out@ =~= merged(a@, b@));
        return out;
    }
    let seed: T = if a.len() > 0 {
        a[0]
    } else {
        b[0]
    };
    while out.len() < n
        invariant
            out.len() <= n,
        decreases n - out.len(),
    {
        out.push(seed);
    }
    let mut i: usize = a.len();
    let mut j: usize = b.len();
    assert(a@.take(i as int) =~= a@ && b@.take(j as int) =~= b@);
    assert(merged(a@, b@) + out@.subrange(n as int, n as int) =~= merged(a@, b@));
    while i > 0 || j > 0
        invariant
            i <= a.len(),
            j <= b.len(),
            n == a.len() + b.len(),
            out.len() == n,
            merged(a@, b@) == merged(a@.take(i as int), b@.take(j as int)) + out@.subrange(
                i + j,
                n as int,
            ),
        decreases i + j,
    {
        let ghost left = a@.take(i as int);
        let ghost right = b@.take(j as int);
        let ghost tail = out@.subrange(i + j, n as int);
        let from_left: bool = j == 0 || (i > 0 && a[i - 1].start_addr() > b[j - 1].start_addr());
        if from_left {
            let x: T = a[i - 1];
            out.set(i + j - 1, x);
            proof {
                assert(left.last() == x);
                assert(left.drop_last() =~= a@.take(i - 1));
                assert(merged(left, right) =~= merged(left.drop_last(), right).push(x));
                assert(out@.subrange(i + j - 1, n as int) =~= seq![x] + tail);
                assert(merged(left.drop_last(), right).push(x) + tail =~= merged(
                    left.drop_last(),
                    right,
                ) + (seq![x] + tail));
            }
            i -= 1;
        } else {
            let x: T = b[j - 1];
            out.set(i + j - 1, x);
            proof {
                assert(right.last() == x);
                assert(right.drop_last() =~= b@.take(j - 1));
                assert(merged(left, right) =~= merged(left, right.drop_last()).push(x));
                assert(out@.subrange(i + j - 1, n as int) =~= seq![x] + tail);
                assert(merged(left, right.drop_last()).push(x) + tail =~= merged(
                    left,
                    right.drop_last(),
                ) + (seq![x] + tail));
            }
            j -= 1;
        }
    }
    assert(merged(a@.take(0), b@.take(0)) =~= Seq::<T>::empty());
    assert(out@.subrange(0, n as int) =~= out@);
    out
}

/// Sorts the records of `v` between `lo` and `hi` by halving and merging.
fn sort_range<T: Located + Copy>(v: &Vec<T>, lo: usize, hi: usize) -> (r: Vec<T>)
    requires
        lo <= hi <= v.len(),
    ensures
        r@ == sorted_by_start(v@.subrange(lo as int, hi as int)),
    decreases hi - lo,
{
    let ghost part = v@.subrange(lo as int, hi as int);
    let mut out: Vec<T> = Vec::new();
    if hi - lo == 0 {
        assert(out@ =~= sorted_by_start(part));
        return out;
    }
    if hi - lo == 1 {
        out.push(v[lo]);
        proof {
            assert(part.drop_last() =~= Seq::<T>::empty());
            assert(sorted_by_start(part.drop_last()) =~= Seq::<T>::empty());
            assert(out@ =~= insert_sorted(Seq::<T>::empty(), part.last()));
        }
        return out;
    }
    let mid: usize = lo + (hi - lo) / 2;
    let left: Vec<T> = sort_range(v, lo, mid);
    let right: Vec<T> = sort_range(v, mid, hi);
    proof {
        let a = v@.subrange(lo as int, mid as int);
        let b = v@.subrange(mid as int, hi as int);
        assert(a + b =~= part);
        lemma_sort_concat(a, b);
        lemma_sorted_by_start(a);
        lemma_sorted_by_start(b);
    }
    merge(&left, &right)
}

/// Sorts the records by their start addresses. Records that start at the
/// same address keep their order.
pub fn sort_by_start<T: Located + Copy>(v: &Vec<T>) -> (r: Vec<T>)
    ensures
        r@ == sorted_by_start(v@),
        sorted(r@),
{
    proof {
        assert(v@.subrange(0, v.len() as int) =~= v@);
        lemma_sorted_by_start(v@);
    }
    sort_range(v, 0, v.len())
}

} // verus!
