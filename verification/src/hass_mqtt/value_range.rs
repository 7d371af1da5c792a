//! Slider inference: when a list of discrete integer values is an unbroken run
//! of consecutive integers, and which half-open range it then stands for.

use core::ops::Range;
use vstd::prelude::*;

verus! {

/// `x` occurs in `s`.
pub open spec fn has(s: Seq<i64>, x: int) -> bool {
    exists|i: int| 0 <= i < s.len() && s[i] == x
}

/// `s` is a run from `lo` to `hi`: it is not empty, holds nothing twice, holds
/// nothing outside `lo ..= hi`, and holds every integer of `lo ..= hi`.
pub open spec fn is_run(s: Seq<i64>, lo: int, hi: int) -> bool {
    &&& s.len() > 0
    &&& s.no_duplicates()
    &&& forall|i: int| 0 <= i < s.len() ==> lo <= #[trigger] s[i] <= hi
    &&& forall|x: int| lo <= x <= hi ==> #[trigger] has(s, x)
}

/// The bounds `(lo, hi)` of the run that `s` is, if it is one.
pub open spec fn run_bounds(s: Seq<i64>) -> Option<(int, int)> {
    if exists|lo: int, hi: int| is_run(s, lo, hi) {
        Some(choose|b: (int, int)| is_run(s, b.0, b.1))
    } else {
        None
    }
}

/// `s` ascends, equal neighbours allowed.
pub open spec fn ascending(s: Seq<i64>) -> bool {
    forall|i: int, j: int| 0 <= i <= j < s.len() ==> s[i] <= s[j]
}

/// A sequence is a run between at most one pair of bounds.
pub proof fn lemma_run_bounds_unique(s: Seq<i64>, lo1: int, hi1: int, lo2: int, hi2: int)
    requires
        is_run(s, lo1, hi1),
        is_run(s, lo2, hi2),
    ensures
        lo1 == lo2,
        hi1 == hi2,
{
    assert(lo1 <= s[0] <= hi1);
    assert(has(s, lo1));
    assert(has(s, hi1));
    assert(has(s, lo2));
    assert(has(s, hi2));
}

/// Where `run_bounds` gives bounds, the sequence is a run between them.
pub proof fn lemma_run_bounds_some(s: Seq<i64>)
    requires
        run_bounds(s) is Some,
    ensures
        is_run(s, run_bounds(s).unwrap().0, run_bounds(s).unwrap().1),
{
    let w = choose|lo: int, hi: int| is_run(s, lo, hi);
    assert(is_run(s, (w.0, w.1).0, (w.0, w.1).1));
}

/// `run_bounds` gives the bounds of any run.
pub proof fn lemma_run_bounds_of_run(s: Seq<i64>, lo: int, hi: int)
    requires
        is_run(s, lo, hi),
    ensures
        run_bounds(s) == Some((lo, hi)),
{
    let b = choose|b: (int, int)| is_run(s, b.0, b.1);
    assert(is_run(s, (lo, hi).0, (lo, hi).1));
    lemma_run_bounds_unique(s, lo, hi, b.0, b.1);
}

/// Being a run does not depend on the order of the items.
pub proof fn lemma_run_of_permutation(s: Seq<i64>, p: Seq<i64>, lo: int, hi: int)
    requires
        s.to_multiset() == p.to_multiset(),
        is_run(p, lo, hi),
    ensures
        is_run(s, lo, hi),
{
    broadcast use vstd::seq_lib::group_to_multiset_ensures;

    p.lemma_multiset_has_no_duplicates();
    s.lemma_multiset_has_no_duplicates_conv();
    assert(s.len() == p.len()) by {
        assert(s.to_multiset().len() == s.len());
        assert(p.to_multiset().len() == p.len());
    }
    assert forall|i: int| 0 <= i < s.len() implies lo <= #[trigger] s[i] <= hi by {
        assert(s.contains(s[i]));
        assert(p.to_multiset().count(s[i]) > 0);
        assert(p.contains(s[i]));
        let j = choose|j: int| 0 <= j < p.len() && p[j] == s[i];
        assert(lo <= p[j] <= hi);
    }
    assert forall|x: int| lo <= x <= hi implies #[trigger] has(s, x) by {
        assert(has(p, x));
        let j = choose|j: int| 0 <= j < p.len() && p[j] == x;
        assert(p.contains(p[j]));
        assert(s.to_multiset().count(p[j]) > 0);
        assert(s.contains(p[j]));
        let k = choose|k: int| 0 <= k < s.len() && s[k] == p[j];
        assert(s[k] == x);
    }
}

/// An ascending sequence that counts up by one from its first item is a run
/// from its first item to its last.
proof fn lemma_counting_is_run(p: Seq<i64>)
    requires
        p.len() > 0,
        forall|k: int| 0 <= k < p.len() ==> #[trigger] p[k] == p[0] + k,
    ensures
        is_run(p, p[0] as int, p[0] + p.len() - 1),
{
    let lo = p[0] as int;
    let hi = p[0] + p.len() - 1;
    assert forall|x: int| lo <= x <= hi implies #[trigger] has(p, x) by {
        assert(p[x - lo] == x);
    }
}

/// An ascending run counts up by one from its lower bound.
proof fn lemma_ascending_run_counts(p: Seq<i64>, lo: int, hi: int, k: int)
    requires
        ascending(p),
        is_run(p, lo, hi),
        0 <= k < p.len(),
    ensures
        p[k] == lo + k,
    decreases k,
{
    if k == 0 {
        assert(has(p, lo));
        let j = choose|j: int| 0 <= j < p.len() && p[j] == lo;
        assert(p[0] <= p[j]);
    } else {
        lemma_ascending_run_counts(p, lo, hi, k - 1);
        assert(p[k - 1] <= p[k]);
        assert(p[k - 1] != p[k]);
        assert(lo + k <= p[k] <= hi);
        assert(has(p, lo + k));
        let j = choose|j: int| 0 <= j < p.len() && p[j] == lo + k;
        if j < k {
            assert(p[j] <= p[k - 1]);
        } else {
            assert(p[k] <= p[j]);
        }
    }
}

/// Sorting by `<[i64]>::sort`: afterwards the vector ascends and holds the
/// same items as before, each as often as before.
#[verifier::external_body]
fn sort_ascending(v: &mut Vec<i64>)
    ensures
        ascending(final(v)@),
        final(v)@.to_multiset() == old(v)@.to_multiset(),
{
    v.sort();
}

/// The bounds of the run that a list of integers is, in whatever order the
/// list holds them: `None` for a list that is empty, has a gap or holds an
/// integer twice.
pub fn infer_run(ints: Vec<i64>) -> (r: Option<(i64, i64)>)
    ensures
        match r {
            Some(b) => run_bounds(ints@) == Some((b.0 as int, b.1 as int)),
            None => run_bounds(ints@) is None,
        },
{
    let mut sorted = ints;
    sort_ascending(&mut sorted);
    let n: usize = sorted.len();
    proof {
        broadcast use vstd::seq_lib::group_to_multiset_ensures;

        assert(sorted@.to_multiset().len() == sorted@.len());
        assert(ints@.to_multiset().len() == ints@.len());
    }
    if n == 0 {
        return None;
    }
    let min: i64 = sorted[0];
    let max: i64 = sorted[n - 1];
    let mut expect: i64 = min;
    let mut i: usize = 0;
    while i < n
        invariant
            n == sorted@.len(),
            n > 0,
            i <= n,
            min == sorted@[0],
            ascending(sorted@),
            sorted@.to_multiset() == ints@.to_multiset(),
            forall|k: int| 0 <= k < i ==> #[trigger] sorted@[k] == min + k,
            i < n ==> expect == min + i,
        decreases n - i,
    {
        if sorted[i] != expect || (i + 1 < n && expect == i64::MAX) {
            proof {
                let bad: int = if sorted@[i as int] != expect { i as int } else { i + 1 };
                assert(sorted@[i as int] <= sorted@[bad]);
                assert(sorted@[bad] != min + bad);
                assert forall|lo: int, hi: int| !is_run(ints@, lo, hi) by {
                    if is_run(ints@, lo, hi) {
                        lemma_run_of_permutation(sorted@, ints@, lo, hi);
                        lemma_ascending_run_counts(sorted@, lo, hi, 0);
                        lemma_ascending_run_counts(sorted@, lo, hi, bad);
                    }
                }
            }
            return None;
        }
        i = i + 1;
        if i < n {
            expect = expect + 1;
        }
    }
    proof {
        lemma_counting_is_run(sorted@);
        lemma_run_of_permutation(ints@, sorted@, min as int, min + n - 1);
        lemma_run_bounds_of_run(ints@, min as int, min + n - 1);
        assert(max == min + n - 1);
    }
    Some((min, max))
}

/// The half-open range that a list of integers stands for when it is a run:
/// `lo .. hi + 1` for a run from `lo` to `hi`, whatever the order of the list,
/// and `None` for a list that is empty, has a gap or holds an integer twice.
///
/// A run that ends at `i64::MAX` has no half-open range in `i64` and is left
/// out.
pub fn infer_contiguous_range(ints: Vec<i64>) -> (r: Option<Range<i64>>)
    requires
        forall|lo: int| !is_run(ints@, lo, i64::MAX as int),
    ensures
        match r {
            Some(range) => run_bounds(ints@) == Some((range.start as int, range.end - 1)),
            None => run_bounds(ints@) is None,
        },
{
    let ghost given = ints@;
    match infer_run(ints) {
        Some((lo, hi)) => {
            proof {
                lemma_run_bounds_some(given);
                assert(!is_run(given, lo as int, i64::MAX as int));
            }
            Some(Range { start: lo, end: hi + 1 })
        },
        None => None,
    }
}

} // verus!
