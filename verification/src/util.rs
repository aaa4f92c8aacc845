//! The import resolver's ordering: a divide-and-conquer stable sort of
//! schema files by their declared import count, splitting at the midpoint
//! and merging with equal-count entries taken from the left half first.
//! The order is a heuristic approximation of dependency order — files with
//! fewer declared imports tend to be emitted earlier — not a topological
//! sort, and it is preserved exactly for output stability.

use vstd::prelude::*;
use crate::schema::VppJsApiFile;
use vstd::multiset::Multiset;

verus! {

/// A schema file together with the path it was loaded from, as the import
/// resolver orders it.
#[derive(Debug, Clone)]
pub struct ImportsFiles {
    pub name: String,
    pub file: Box<VppJsApiFile>,
}

/// The sort key: how many import references the file declares.
pub open spec fn import_count(x: ImportsFiles) -> int {
    x.file.imports@.len() as int
}

/// Merging two runs: the head with the smaller import count moves first,
/// and on a tie the left head moves before the right head.
pub open spec fn spec_merge(l: Seq<ImportsFiles>, r: Seq<ImportsFiles>) -> Seq<ImportsFiles>
    decreases l.len() + r.len(),
{
    if l.len() == 0 {
        r
    } else if r.len() == 0 {
        l
    } else if import_count(l[0]) <= import_count(r[0]) {
        seq![l[0]] + spec_merge(l.drop_first(), r)
    } else {
        seq![r[0]] + spec_merge(l, r.drop_first())
    }
}

/// What `merge` leaves behind: the stretch between `left` and `right`
/// replaced by the merge of its two halves, everything else unchanged.
pub open spec fn spec_merge_frame(
    s: Seq<ImportsFiles>,
    left: int,
    mid: int,
    right: int,
) -> Seq<ImportsFiles>
    recommends
        0 <= left <= mid <= right <= s.len(),
{
    s.subrange(0, left) + spec_merge(s.subrange(left, mid), s.subrange(mid, right))
        + s.subrange(right, s.len() as int)
}

/// The sort itself, over sequences: split at the midpoint, order each half,
/// merge.
pub open spec fn spec_merge_sort(s: Seq<ImportsFiles>, left: int, right: int) -> Seq<ImportsFiles>
    recommends
        0 <= left <= right <= s.len(),
    decreases right - left,
{
    if 1 < right - left {
        let mid = left + (right - left) / 2;
        let s1 = spec_merge_sort(s, left, mid);
        let s2 = spec_merge_sort(s1, mid, right);
        spec_merge_frame(s2, left, mid, right)
    } else {
        s
    }
}

/// Non-decreasing import counts over the stretch `[left, right)`.
pub open spec fn sorted_between(s: Seq<ImportsFiles>, left: int, right: int) -> bool {
    forall|i: int, j: int|
        left <= i <= j < right ==> import_count(s[i]) <= import_count(s[j])
}

proof fn lemma_merge_len(l: Seq<ImportsFiles>, r: Seq<ImportsFiles>)
    ensures
        spec_merge(l, r).len() == l.len() + r.len(),
    decreases l.len() + r.len(),
{
    if l.len() == 0 {
    } else if r.len() == 0 {
    } else if import_count(l[0]) <= import_count(r[0]) {
        lemma_merge_len(l.drop_first(), r);
    } else {
        lemma_merge_len(l, r.drop_first());
    }
}

/// The sort keeps the length and touches nothing outside `[left, right)`.
pub proof fn lemma_merge_sort_len(s: Seq<ImportsFiles>, left: int, right: int)
    requires
        0 <= left <= right <= s.len(),
    ensures
        spec_merge_sort(s, left, right).len() == s.len(),
        forall|i: int|
            0 <= i < s.len() && !(left <= i < right) ==> spec_merge_sort(s, left, right)[i]
                == s[i],
    decreases right - left,
{
    if 1 < right - left {
        let mid = left + (right - left) / 2;
        let s1 = spec_merge_sort(s, left, mid);
        lemma_merge_sort_len(s, left, mid);
        let s2 = spec_merge_sort(s1, mid, right);
        lemma_merge_sort_len(s1, mid, right);
        lemma_merge_len(s2.subrange(left, mid), s2.subrange(mid, right));
        let out = spec_merge_frame(s2, left, mid, right);
        assert(out.len() == s.len());
        assert forall|i: int|
            0 <= i < s.len() && !(left <= i < right) implies out[i] == s[i] by {
            if i < left {
                assert(out[i] == s2.subrange(0, left)[i]);
                assert(s2[i] == s1[i]);
            } else {
                assert(out[i] == s2.subrange(right, s2.len() as int)[i - right]);
                assert(s2[i] == s1[i]);
            }
        }
    }
}

/// Merges the two sorted runs `arr[left..mid]` and `arr[mid..right]` back
/// into their place, leaving the rest of the vector unchanged.
pub fn merge(arr: Vec<ImportsFiles>, left: usize, mid: usize, right: usize) -> (r: Vec<
    ImportsFiles,
>)
    requires
        left <= mid <= right <= arr@.len(),
    ensures
        r@ == spec_merge_frame(arr@, left as int, mid as int, right as int),
{
    let ghost orig = arr@;
    let mut head = arr;
    let mut tail = head.split_off(right);
    let mut rseg = head.split_off(mid);
    let mut lseg = head.split_off(left);
    assert(tail@ =~= orig.subrange(right as int, orig.len() as int));
    assert(rseg@ =~= orig.subrange(mid as int, right as int));
    assert(lseg@ =~= orig.subrange(left as int, mid as int));
    assert(head@ =~= orig.subrange(0, left as int));
    let ghost l0 = lseg@;
    let ghost r0 = rseg@;
    let mut out = head;
    let ghost base = out@;
    while lseg.len() > 0 && rseg.len() > 0
        invariant
            out@ + spec_merge(lseg@, rseg@) == base + spec_merge(l0, r0),
        decreases lseg@.len() + rseg@.len(),
    {
        let ghost lpre = lseg@;
        let ghost rpre = rseg@;
        let take_left = lseg[0].file.imports.len() <= rseg[0].file.imports.len();
        if take_left {
            let x = lseg.remove(0);
            assert(lseg@ =~= lpre.drop_first());
            out.push(x);
            assert(out@ + spec_merge(lseg@, rseg@) =~= base + spec_merge(l0, r0));
        } else {
            let x = rseg.remove(0);
            assert(rseg@ =~= rpre.drop_first());
            out.push(x);
            assert(out@ + spec_merge(lseg@, rseg@) =~= base + spec_merge(l0, r0));
        }
    }
    if lseg.len() == 0 {
        assert(spec_merge(lseg@, rseg@) == rseg@);
    } else {
        assert(spec_merge(lseg@, rseg@) == lseg@);
    }
    out.append(&mut lseg);
    out.append(&mut rseg);
    assert(out@ =~= base + spec_merge(l0, r0));
    out.append(&mut tail);
    assert(out@ =~= spec_merge_frame(orig, left as int, mid as int, right as int));
    out
}

/// Orders `arr[left..right]` ascending by import count with the
/// divide-and-conquer stable merge; the rest of the vector is unchanged.
pub fn merge_sort(arr: Vec<ImportsFiles>, left: usize, right: usize) -> (r: Vec<ImportsFiles>)
    requires
        left <= right <= arr@.len(),
    ensures
        r@ == spec_merge_sort(arr@, left as int, right as int),
        r@.len() == arr@.len(),
    decreases right - left,
{
    proof {
        lemma_merge_sort_len(arr@, left as int, right as int);
    }
    if right - left > 1 {
        let mid = left + (right - left) / 2;
        let arr1 = merge_sort(arr, left, mid);
        let arr2 = merge_sort(arr1, mid, right);
        merge(arr2, left, mid, right)
    } else {
        arr
    }
}

/// Everything in `l` at or below the bound stays at or below it after a
/// merge, and likewise for `r`.
proof fn lemma_merge_bound(l: Seq<ImportsFiles>, r: Seq<ImportsFiles>, b: int)
    requires
        forall|i: int| 0 <= i < l.len() ==> b <= import_count(l[i]),
        forall|i: int| 0 <= i < r.len() ==> b <= import_count(r[i]),
    ensures
        forall|i: int|
            0 <= i < spec_merge(l, r).len() ==> b <= import_count(spec_merge(l, r)[i]),
    decreases l.len() + r.len(),
{
    if l.len() == 0 {
    } else if r.len() == 0 {
    } else if import_count(l[0]) <= import_count(r[0]) {
        lemma_merge_bound(l.drop_first(), r, b);
        let m = spec_merge(l.drop_first(), r);
        assert forall|i: int| 0 <= i < spec_merge(l, r).len() implies b <= import_count(
            spec_merge(l, r)[i],
        ) by {
            if 0 < i {
                assert(spec_merge(l, r)[i] == m[i - 1]);
            }
        }
    } else {
        lemma_merge_bound(l, r.drop_first(), b);
        let m = spec_merge(l, r.drop_first());
        assert forall|i: int| 0 <= i < spec_merge(l, r).len() implies b <= import_count(
            spec_merge(l, r)[i],
        ) by {
            if 0 < i {
                assert(spec_merge(l, r)[i] == m[i - 1]);
            }
        }
    }
}

/// Merging two sorted runs gives a sorted run.
proof fn lemma_merge_sorted(l: Seq<ImportsFiles>, r: Seq<ImportsFiles>)
    requires
        sorted_between(l, 0, l.len() as int),
        sorted_between(r, 0, r.len() as int),
    ensures
        sorted_between(spec_merge(l, r), 0, spec_merge(l, r).len() as int),
    decreases l.len() + r.len(),
{
    lemma_merge_len(l, r);
    if l.len() == 0 {
    } else if r.len() == 0 {
    } else if import_count(l[0]) <= import_count(r[0]) {
        lemma_merge_sorted(l.drop_first(), r);
        lemma_merge_bound(l.drop_first(), r, import_count(l[0]));
        let m = spec_merge(l.drop_first(), r);
        assert forall|i: int, j: int|
            0 <= i <= j < spec_merge(l, r).len() implies import_count(
            spec_merge(l, r)[i],
        ) <= import_count(spec_merge(l, r)[j]) by {
            if 0 < i {
                assert(spec_merge(l, r)[i] == m[i - 1]);
                assert(spec_merge(l, r)[j] == m[j - 1]);
            } else if 0 < j {
                assert(spec_merge(l, r)[j] == m[j - 1]);
            }
        }
    } else {
        lemma_merge_sorted(l, r.drop_first());
        lemma_merge_bound(l, r.drop_first(), import_count(r[0]));
        let m = spec_merge(l, r.drop_first());
        assert forall|i: int, j: int|
            0 <= i <= j < spec_merge(l, r).len() implies import_count(
            spec_merge(l, r)[i],
        ) <= import_count(spec_merge(l, r)[j]) by {
            if 0 < i {
                assert(spec_merge(l, r)[i] == m[i - 1]);
                assert(spec_merge(l, r)[j] == m[j - 1]);
            } else if 0 < j {
                assert(spec_merge(l, r)[j] == m[j - 1]);
            }
        }
    }
}

/// The sort leaves `[left, right)` sorted by import count.
pub proof fn lemma_merge_sort_sorted(s: Seq<ImportsFiles>, left: int, right: int)
    requires
        0 <= left <= right <= s.len(),
    ensures
        sorted_between(spec_merge_sort(s, left, right), left, right),
    decreases right - left,
{
    if 1 < right - left {
        let mid = left + (right - left) / 2;
        let s1 = spec_merge_sort(s, left, mid);
        lemma_merge_sort_sorted(s, left, mid);
        lemma_merge_sort_len(s, left, mid);
        let s2 = spec_merge_sort(s1, mid, right);
        lemma_merge_sort_sorted(s1, mid, right);
        lemma_merge_sort_len(s1, mid, right);
        let lrun = s2.subrange(left, mid);
        let rrun = s2.subrange(mid, right);
        // The first half of s1 survives into s2 untouched.
        assert forall|i: int, j: int| 0 <= i <= j < lrun.len() implies import_count(
            lrun[i],
        ) <= import_count(lrun[j]) by {
            assert(lrun[i] == s2[left + i] && s2[left + i] == s1[left + i]);
            assert(lrun[j] == s2[left + j] && s2[left + j] == s1[left + j]);
        }
        assert forall|i: int, j: int| 0 <= i <= j < rrun.len() implies import_count(
            rrun[i],
        ) <= import_count(rrun[j]) by {
            assert(rrun[i] == s2[mid + i]);
            assert(rrun[j] == s2[mid + j]);
        }
        lemma_merge_sorted(lrun, rrun);
        lemma_merge_len(lrun, rrun);
        let merged = spec_merge(lrun, rrun);
        let out = spec_merge_frame(s2, left, mid, right);
        assert forall|i: int, j: int| left <= i <= j < right implies import_count(
            out[i],
        ) <= import_count(out[j]) by {
            assert(out[i] == merged[i - left]);
            assert(out[j] == merged[j - left]);
        }
    }
}

/// If every element of `l` has a count at or below every element of `r`,
/// the merge is just the concatenation.
proof fn lemma_merge_of_ordered_halves(l: Seq<ImportsFiles>, r: Seq<ImportsFiles>)
    requires
        forall|i: int, j: int|
            0 <= i < l.len() && 0 <= j < r.len() ==> import_count(l[i]) <= import_count(r[j]),
    ensures
        spec_merge(l, r) == l + r,
    decreases l.len(),
{
    if l.len() == 0 {
        assert(spec_merge(l, r) =~= l + r);
    } else if r.len() == 0 {
        assert(spec_merge(l, r) =~= l + r);
    } else {
        lemma_merge_of_ordered_halves(l.drop_first(), r);
        assert(seq![l[0]] + (l.drop_first() + r) =~= l + r);
    }
}

/// Sorting an already sorted stretch returns it unchanged.
pub proof fn lemma_merge_sort_of_sorted(s: Seq<ImportsFiles>, left: int, right: int)
    requires
        0 <= left <= right <= s.len(),
        sorted_between(s, left, right),
    ensures
        spec_merge_sort(s, left, right) == s,
    decreases right - left,
{
    if 1 < right - left {
        let mid = left + (right - left) / 2;
        lemma_merge_sort_of_sorted(s, left, mid);
        lemma_merge_sort_of_sorted(s, mid, right);
        let lrun = s.subrange(left, mid);
        let rrun = s.subrange(mid, right);
        assert forall|i: int, j: int|
            0 <= i < lrun.len() && 0 <= j < rrun.len() implies import_count(
            lrun[i],
        ) <= import_count(rrun[j]) by {
            assert(lrun[i] == s[left + i]);
            assert(rrun[j] == s[mid + j]);
        }
        lemma_merge_of_ordered_halves(lrun, rrun);
        assert(spec_merge_frame(s, left, mid, right) =~= s);
    }
}

/// Ordering idempotence: running the merge-based sort on its own output
/// yields that output again.
pub proof fn lemma_merge_sort_idempotent(s: Seq<ImportsFiles>)
    ensures
        spec_merge_sort(
            spec_merge_sort(s, 0, s.len() as int),
            0,
            spec_merge_sort(s, 0, s.len() as int).len() as int,
        ) == spec_merge_sort(s, 0, s.len() as int),
{
    let once = spec_merge_sort(s, 0, s.len() as int);
    lemma_merge_sort_len(s, 0, s.len() as int);
    lemma_merge_sort_sorted(s, 0, s.len() as int);
    lemma_merge_sort_of_sorted(once, 0, once.len() as int);
}

/// Orders a whole collection of files ascending by import count.
pub fn order_type_files(files: Vec<ImportsFiles>) -> (r: Vec<ImportsFiles>)
    ensures
        r@ == spec_merge_sort(files@, 0, files@.len() as int),
        r@.len() == files@.len(),
{
    let len = files.len();
    merge_sort(files, 0, len)
}

proof fn lemma_merge_multiset(l: Seq<ImportsFiles>, r: Seq<ImportsFiles>)
    ensures
        spec_merge(l, r).to_multiset() == l.to_multiset().add(r.to_multiset()),
    decreases l.len() + r.len(),
{
    broadcast use vstd::seq_lib::lemma_multiset_commutative;
    broadcast use vstd::seq_lib::group_to_multiset_ensures;
    broadcast use vstd::multiset::group_multiset_axioms;

    if l.len() == 0 {
        assert(l.to_multiset() =~= Multiset::<ImportsFiles>::empty());
        assert(spec_merge(l, r).to_multiset() =~= l.to_multiset().add(r.to_multiset()));
    } else if r.len() == 0 {
        assert(r.to_multiset() =~= Multiset::<ImportsFiles>::empty());
        assert(spec_merge(l, r).to_multiset() =~= l.to_multiset().add(r.to_multiset()));
    } else if import_count(l[0]) <= import_count(r[0]) {
        lemma_merge_multiset(l.drop_first(), r);
        assert(seq![l[0]] + l.drop_first() =~= l);
        assert((seq![l[0]] + spec_merge(l.drop_first(), r)).to_multiset() =~= l.to_multiset().add(
            r.to_multiset(),
        ));
    } else {
        lemma_merge_multiset(l, r.drop_first());
        assert(seq![r[0]] + r.drop_first() =~= r);
        assert((seq![r[0]] + spec_merge(l, r.drop_first())).to_multiset() =~= l.to_multiset().add(
            r.to_multiset(),
        ));
    }
}

/// The sort is a permutation: what comes out of the ordered stretch is
/// exactly what went in, counted with multiplicity.
pub proof fn lemma_merge_sort_permutes(s: Seq<ImportsFiles>, left: int, right: int)
    requires
        0 <= left <= right <= s.len(),
    ensures
        spec_merge_sort(s, left, right).to_multiset() == s.to_multiset(),
    decreases right - left,
{
    broadcast use vstd::seq_lib::lemma_multiset_commutative;
    broadcast use vstd::seq_lib::group_to_multiset_ensures;
    broadcast use vstd::multiset::group_multiset_axioms;

    if 1 < right - left {
        let mid = left + (right - left) / 2;
        let s1 = spec_merge_sort(s, left, mid);
        lemma_merge_sort_permutes(s, left, mid);
        lemma_merge_sort_len(s, left, mid);
        let s2 = spec_merge_sort(s1, mid, right);
        lemma_merge_sort_permutes(s1, mid, right);
        lemma_merge_sort_len(s1, mid, right);
        let a = s2.subrange(0, left);
        let b = s2.subrange(left, mid);
        let c = s2.subrange(mid, right);
        let d = s2.subrange(right, s2.len() as int);
        lemma_merge_multiset(b, c);
        assert(a + b + c + d =~= s2);
        assert((a + b + c + d).to_multiset() =~= a.to_multiset().add(b.to_multiset()).add(
            c.to_multiset(),
        ).add(d.to_multiset())) by {
            assert((a + b).to_multiset() =~= a.to_multiset().add(b.to_multiset()));
            assert((a + b + c).to_multiset() =~= (a + b).to_multiset().add(c.to_multiset()));
            assert((a + b + c + d).to_multiset() =~= (a + b + c).to_multiset().add(
                d.to_multiset(),
            ));
        }
        let merged = spec_merge(b, c);
        assert(spec_merge_frame(s2, left, mid, right) =~= a + merged + d);
        assert((a + merged + d).to_multiset() =~= a.to_multiset().add(merged.to_multiset()).add(
            d.to_multiset(),
        )) by {
            assert((a + merged).to_multiset() =~= a.to_multiset().add(merged.to_multiset()));
            assert((a + merged + d).to_multiset() =~= (a + merged).to_multiset().add(
                d.to_multiset(),
            ));
        }
        assert(spec_merge_frame(s2, left, mid, right).to_multiset() =~= s2.to_multiset());
    }
}

} // verus!
