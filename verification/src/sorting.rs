//! Sorting by insertion.

use vstd::prelude::*;

verus! {

/// Inserting an element adds it to the elements.
pub proof fn lemma_insert_multiset<A>(s: Seq<A>, k: int, x: A)
    requires
        0 <= k <= s.len(),
    ensures
        s.insert(k, x).to_multiset() == s.to_multiset().insert(x),
{
    broadcast use vstd::seq_lib::group_to_multiset_ensures;
    broadcast use vstd::multiset::group_multiset_axioms;

    let t = s.insert(k, x);
    assert(t.remove(k) =~= s);
    assert(t[k] == x);
    assert(t.contains(x));
    assert(t.to_multiset().remove(x) == s.to_multiset());
    assert(t.to_multiset().count(x) > 0);
    assert(t.to_multiset() =~= s.to_multiset().insert(x));
}

/// A sorted sequence of the elements of `s` is what sorting `s` gives.
pub proof fn lemma_is_sort<A>(sorted: Seq<A>, s: Seq<A>, leq: spec_fn(A, A) -> bool)
    requires
        vstd::relations::total_ordering(leq),
        vstd::relations::sorted_by(sorted, leq),
        sorted.to_multiset() == s.to_multiset(),
    ensures
        sorted == s.sort_by(leq),
{
    s.lemma_sort_by_ensures(leq);
    vstd::seq_lib::lemma_sorted_unique(sorted, s.sort_by(leq), leq);
}

/// The order of numbers.
pub open spec fn ascending() -> spec_fn(u32, u32) -> bool {
    |a: u32, b: u32| a <= b
}

/// The numbers of `v` in ascending order.
pub fn sort_ascending(v: &Vec<u32>) -> (r: Vec<u32>)
    ensures
        r@ == v@.sort_by(ascending()),
{
    let mut r: Vec<u32> = Vec::new();
    let mut i: usize = 0;
    assert(v@.take(0) =~= Seq::<u32>::empty());
    while i < v.len()
        invariant
            i <= v.len(),
            vstd::relations::sorted_by(r@, ascending()),
            r@.to_multiset() == v@.take(i as int).to_multiset(),
            r.len() == i,
        decreases v.len() - i,
    {
        let x: u32 = v[i];
        let mut k: usize = 0;
        while k < r.len() && r[k] <= x
            invariant
                k <= r.len(),
                forall|m: int| 0 <= m < k ==> r@[m] <= x,
            decreases r.len() - k,
        {
            k += 1;
        }
        let ghost before = r@;
        proof {
            let leq = ascending();
            assert forall|a: int, b: int| k <= a <= b < before.len() implies before[a] <= before[b] by {
                if a < b {
                    assert(leq(before[a], before[b]));
                }
            }
        }
        r.insert(k, x);
        proof {
            broadcast use vstd::seq_lib::group_to_multiset_ensures;

            lemma_insert_multiset(before, k as int, x);
            assert(v@.take(i + 1) =~= v@.take(i as int).push(x));
            let leq = ascending();
            assert forall|a: int, b: int| 0 <= a < b < r@.len() implies leq(r@[a], r@[b]) by {
                let pa = if a < k {
                    a
                } else {
                    a - 1
                };
                let pb = if b < k {
                    b
                } else {
                    b - 1
                };
                if a != k && b != k {
                    if pa < pb {
                        assert(leq(before[pa], before[pb]));
                    }
                } else if a == k {
                    assert(before[k as int] <= before[pb]);
                } else {
                    assert(before[pa] <= x);
                }
            }
        }
        i += 1;
    }
    proof {
        assert(v@.take(v@.len() as int) =~= v@);
        lemma_is_sort(r@, v@, ascending());
    }
    r
}

} // verus!
