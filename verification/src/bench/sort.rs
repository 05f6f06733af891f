use vstd::prelude::*;

verus! {

broadcast use vstd::seq_lib::group_to_multiset_ensures;

/// `s` is in ascending order.
pub open spec fn is_sorted(s: Seq<u128>) -> bool {
    forall|i: int, j: int| 0 <= i <= j < s.len() ==> s[i] <= s[j]
}

/// Merges two ascending vectors into one ascending vector holding the
/// elements of both.
fn merge(a: &Vec<u128>, b: &Vec<u128>) -> (r: Vec<u128>)
    requires
        is_sorted(a@),
        is_sorted(b@),
    ensures
        is_sorted(r@),
        r@.to_multiset() =~= a@.to_multiset().add(b@.to_multiset()),
        r@.len() == a@.len() + b@.len(),
{
    let mut r: Vec<u128> = Vec::new();
    let mut i: usize = 0;
    let mut j: usize = 0;
    while i < a.len() || j < b.len()
        invariant
            is_sorted(a@),
            is_sorted(b@),
            i <= a@.len(),
            j <= b@.len(),
            is_sorted(r@),
            r@.len() == i + j,
            r@.to_multiset() =~= a@.take(i as int).to_multiset().add(b@.take(j as int).to_multiset()),
            r@.len() > 0 && i < a@.len() ==> r@.last() <= a@[i as int],
            r@.len() > 0 && j < b@.len() ==> r@.last() <= b@[j as int],
        decreases a@.len() + b@.len() - i - j,
    {
        let take_a = j >= b.len() || (i < a.len() && a[i] <= b[j]);
        if take_a {
            let x = a[i];
            assert(a@.take(i + 1) =~= a@.take(i as int).push(x));
            r.push(x);
            i = i + 1;
        } else {
            let x = b[j];
            assert(b@.take(j + 1) =~= b@.take(j as int).push(x));
            r.push(x);
            j = j + 1;
        }
    }
    assert(a@.take(a@.len() as int) =~= a@);
    assert(b@.take(b@.len() as int) =~= b@);
    r
}

/// Copies the elements of `v` at positions `lo..hi`.
fn copy_range(v: &Vec<u128>, lo: usize, hi: usize) -> (r: Vec<u128>)
    requires
        lo <= hi <= v@.len(),
    ensures
        r@ =~= v@.subrange(lo as int, hi as int),
{
    let mut r: Vec<u128> = Vec::new();
    let mut k: usize = lo;
    while k < hi
        invariant
            lo <= k <= hi <= v@.len(),
            r@ =~= v@.subrange(lo as int, k as int),
        decreases hi - k,
    {
        r.push(v[k]);
        k = k + 1;
    }
    r
}

/// Sorts `v` in ascending order (merge sort).
pub fn sort_ascending(v: &Vec<u128>) -> (r: Vec<u128>)
    ensures
        is_sorted(r@),
        r@.to_multiset() =~= v@.to_multiset(),
        r@.len() == v@.len(),
    decreases v@.len(),
{
    let n = v.len();
    if n <= 1 {
        let r = copy_range(v, 0, n);
        assert(v@.subrange(0, n as int) =~= v@);
        return r;
    }
    let mid = n / 2;
    let left = copy_range(v, 0, mid);
    let right = copy_range(v, mid, n);
    let sl = sort_ascending(&left);
    let sr = sort_ascending(&right);
    let r = merge(&sl, &sr);
    proof {
        assert(v@ =~= left@ + right@);
        vstd::seq_lib::lemma_multiset_commutative(left@, right@);
    }
    r
}

} // verus!
