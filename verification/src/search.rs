//! Search in a sequence of records that is sorted by address.

use vstd::prelude::*;

use crate::Addr;

verus! {

/// A record that starts at an address and can be kept in address order.
pub trait Located {
    /// The address at which the record starts.
    spec fn start(&self) -> u64;

    fn start_addr(&self) -> (r: u64)
        ensures
            r == self.start(),
    ;
}

/// A named record of an address-ordered index.
pub trait Entry: Located {
    /// Offset of the record's name in the string section that its index
    /// reads names from.
    spec fn name_ref(&self) -> u64;

    /// The size in bytes of what the record describes, where it is known.
    spec fn extent(&self) -> Option<u64>;

    fn name_offset(&self) -> (r: u64)
        ensures
            r == self.name_ref(),
    ;

    fn size(&self) -> (r: Option<u64>)
        ensures
            r == self.extent(),
    ;
}

/// The record starts at or below `addr` and, where its size is known, ends
/// above it.
pub open spec fn covers<T: Entry>(entry: T, addr: u64) -> bool {
    entry.start() <= addr && (entry.extent() matches Some(size) ==> addr - entry.start() < size)
}

/// The records are in ascending order of their start addresses.
pub open spec fn sorted<T: Located>(s: Seq<T>) -> bool {
    forall|i: int, j: int|
        0 <= i <= j < s.len() ==> (#[trigger] s[i]).start() <= (#[trigger] s[j]).start()
}

/// The number of records that start at or below `addr`.
///
/// In a sorted sequence these are the first `rank` records, so that the record
/// nearest to `addr` from below, if there is one, stands at `rank - 1`.
pub open spec fn rank<T: Located>(s: Seq<T>, addr: u64) -> nat
    decreases s.len(),
{
    if s.len() == 0 {
        0
    } else {
        rank(s.drop_last(), addr) + if s.last().start() <= addr {
            1nat
        } else {
            0nat
        }
    }
}

/// In a sorted sequence, `rank` splits the records into those that start at
/// or below `addr` and those that start above it.
pub proof fn lemma_rank_splits<T: Located>(s: Seq<T>, addr: u64)
    requires
        sorted(s),
    ensures
        rank(s, addr) <= s.len(),
        forall|i: int| 0 <= i < rank(s, addr) ==> (#[trigger] s[i]).start() <= addr,
        forall|i: int| rank(s, addr) <= i < s.len() ==> (#[trigger] s[i]).start() > addr,
    decreases s.len(),
{
    if s.len() > 0 {
        let front = s.drop_last();
        assert(sorted(front)) by {
            assert forall|i: int, j: int| 0 <= i <= j < front.len() implies (#[trigger] front[i]).start()
                <= (#[trigger] front[j]).start() by {
                assert(front[i] == s[i] && front[j] == s[j]);
            }
        }
        lemma_rank_splits(front, addr);
        let r = rank(front, addr);
        assert forall|i: int| 0 <= i < rank(s, addr) implies (#[trigger] s[i]).start() <= addr by {
            if i < front.len() {
                assert(front[i] == s[i]);
                if i >= r {
                    assert(s.last().start() <= addr);
                    assert(s[i].start() <= s[s.len() - 1].start());
                }
            }
        }
        assert forall|i: int| rank(s, addr) <= i < s.len() implies (#[trigger] s[i]).start() > addr by {
            if i < front.len() {
                assert(front[i] == s[i]);
            }
        }
    }
}

/// The only point that splits a sorted sequence at `addr` is `rank`.
pub proof fn lemma_rank_is_split_point<T: Located>(s: Seq<T>, addr: u64, k: int)
    requires
        sorted(s),
        0 <= k <= s.len(),
        forall|i: int| 0 <= i < k ==> (#[trigger] s[i]).start() <= addr,
        forall|i: int| k <= i < s.len() ==> (#[trigger] s[i]).start() > addr,
    ensures
        rank(s, addr) == k,
{
    lemma_rank_splits(s, addr);
    let r = rank(s, addr) as int;
    if r < k {
        assert(s[r].start() <= addr);
    } else if k < r {
        assert(s[k].start() <= addr);
    }
}

/// The record that owns `addr`: the one nearest to `addr` from below, which
/// is the last of those that start at or below `addr`, if it covers `addr`.
/// No other record is looked at.
pub open spec fn nearest_owner<T: Entry>(entries: Seq<T>, addr: u64) -> Option<T> {
    let n = rank(entries, addr);
    if n > 0 && covers(entries[n - 1], addr) {
        Some(entries[n - 1])
    } else {
        None
    }
}

/// An address has no owner where the last record of the index does not
/// cover it and no record starts above it.
pub proof fn lemma_no_owner_past_last<T: Entry>(entries: Seq<T>, addr: u64)
    requires
        sorted(entries),
        entries.len() > 0,
        entries.last().start() <= addr,
        !covers(entries.last(), addr),
    ensures
        nearest_owner(entries, addr) is None,
{
    assert forall|i: int| 0 <= i < entries.len() implies (#[trigger] entries[i]).start() <= addr by {
        assert(entries[i].start() <= entries[entries.len() - 1].start());
    }
    lemma_rank_is_split_point(entries, addr, entries.len() as int);
}

/// An owner covers the address that it owns and is a record of the index.
pub proof fn lemma_owner_covers<T: Entry>(entries: Seq<T>, addr: u64)
    requires
        sorted(entries),
    ensures
        nearest_owner(entries, addr) matches Some(owner) ==> covers(owner, addr)
            && entries.contains(owner),
{
    lemma_rank_splits(entries, addr);
}

/// An address has no owner where no record covers it.
pub proof fn lemma_no_owner_where_uncovered<T: Entry>(entries: Seq<T>, addr: u64)
    requires
        sorted(entries),
        forall|i: int| 0 <= i < entries.len() ==> !covers(#[trigger] entries[i], addr),
    ensures
        nearest_owner(entries, addr) is None,
{
    lemma_rank_splits(entries, addr);
}

/// A record of the index owns every address that it covers, provided that
/// no record that differs from it starts between its own start and the
/// address, both included.
pub proof fn lemma_owner_of_covered<T: Entry>(entries: Seq<T>, owner: T, addr: u64)
    requires
        sorted(entries),
        entries.contains(owner),
        covers(owner, addr),
        forall|j: int|
            0 <= j < entries.len() ==> (#[trigger] entries[j]) == owner || entries[j].start()
                < owner.start() || addr < entries[j].start(),
    ensures
        nearest_owner(entries, addr) == Some(owner),
{
    lemma_rank_splits(entries, addr);
    let k = choose|k: int| 0 <= k < entries.len() && entries[k] == owner;
    let n = rank(entries, addr) as int;
    assert(k < n) by {
        if k >= n {
            assert(entries[k].start() > addr);
        }
    }
    assert(entries[k].start() <= entries[n - 1].start());
    assert(entries[n - 1].start() <= addr);
}

/// The number of records of a sorted vector that start at or below `addr`,
/// found by bisection.
pub fn upper_bound<T: Located>(v: &Vec<T>, addr: Addr) -> (r: usize)
    requires
        sorted(v@),
    ensures
        r == rank(v@, addr),
        r <= v.len(),
{
    let mut lo: usize = 0;
    let mut hi: usize = v.len();
    while lo < hi
        invariant
            lo <= hi <= v.len(),
            sorted(v@),
            forall|i: int| 0 <= i < lo ==> (#[trigger] v@[i]).start() <= addr,
            forall|i: int| hi <= i < v.len() ==> (#[trigger] v@[i]).start() > addr,
        decreases hi - lo,
    {
        let mid: usize = lo + (hi - lo) / 2;
        if v[mid].start_addr() <= addr {
            lo = mid + 1;
        } else {
            hi = mid;
        }
    }
    proof {
        lemma_rank_is_split_point(v@, addr, lo as int);
    }
    lo
}

/// Finds the record that owns `addr` by bisection and one range check.
pub fn find_owner<T: Entry>(entries: &Vec<T>, addr: Addr) -> (r: Option<&T>)
    requires
        sorted(entries@),
    ensures
        match r {
            Some(owner) => nearest_owner(entries@, addr) == Some(*owner),
            None => nearest_owner(entries@, addr) is None,
        },
{
    let n: usize = upper_bound(entries, addr);
    if n == 0 {
        return None;
    }
    let entry: &T = &entries[n - 1];
    let start: u64 = entry.start_addr();
    proof {
        lemma_rank_splits(entries@, addr);
    }
    match entry.size() {
        Some(size) => if addr - start < size {
            Some(entry)
        } else {
            None
        },
        None => Some(entry),
    }
}

/// Whether the records are in ascending order of their start addresses.
pub fn is_sorted<T: Located>(v: &Vec<T>) -> (r: bool)
    ensures
        r == sorted(v@),
{
    if v.len() < 2 {
        return true;
    }
    let mut i: usize = 0;
    while i + 1 < v.len()
        invariant
            i < v.len(),
            forall|a: int, b: int|
                0 <= a <= b <= i ==> (#[trigger] v@[a]).start() <= (#[trigger] v@[b]).start(),
        decreases v.len() - i,
    {
        if v[i].start_addr() > v[i + 1].start_addr() {
            assert(v@[i as int].start() > v@[i + 1].start());
            return false;
        }
        assert forall|a: int, b: int| 0 <= a <= b <= i + 1 implies (#[trigger] v@[a]).start() <= (
        #[trigger] v@[b]).start() by {
            if b == i + 1 && a <= i {
                assert(v@[a].start() <= v@[i as int].start());
            }
        }
        i += 1;
    }
    true
}

} // verus!
