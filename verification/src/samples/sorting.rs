use vstd::prelude::*;

verus! {

/// Nondecreasing order.
pub open spec fn sorted(s: Seq<i32>) -> bool {
    forall|p: int, q: int| 0 <= p <= q < s.len() ==> s[p] <= s[q]
}

/// Exchanging two positions of a sequence rearranges it but keeps its
/// elements.
proof fn lemma_swap_preserves_multiset(s: Seq<i32>, i: int, j: int)
    requires
        0 <= i < s.len(),
        0 <= j < s.len(),
    ensures
        s.update(i, s[j]).update(j, s[i]).to_multiset() == s.to_multiset(),
{
    broadcast use vstd::seq_lib::group_to_multiset_ensures;
    broadcast use vstd::seq_lib::to_multiset_update;
    broadcast use vstd::multiset::group_multiset_axioms;

    let s1 = s.update(i, s[j]);
    let s2 = s1.update(j, s[i]);
    assert(s.contains(s[i]));
    assert(s.contains(s[j]));
    assert(s1.contains(s1[j]));
    assert(s2.to_multiset() =~= s.to_multiset());
}

/// Selection sort, in place: afterwards the array is in nondecreasing
/// order and holds exactly the elements it held before.
pub fn sort(array: &mut Vec<i32>)
    ensures
        sorted(final(array)@),
        final(array)@.to_multiset() == old(array)@.to_multiset(),
{
    let n = array.len();
    let mut i: usize = 0;
    while i < n
        invariant
            n == array@.len(),
            i <= n,
            array@.to_multiset() == old(array)@.to_multiset(),
            sorted(array@.take(i as int)),
            forall|p: int, q: int| 0 <= p < i <= q < n ==> array@[p] <= array@[q],
        decreases n - i,
    {
        let ghost s_iter = array@;
        let mut min: usize = i;
        let mut j: usize = i + 1;
        while j < n
            invariant
                n == array@.len(),
                array@ == s_iter,
                i <= min < n,
                i < j <= n,
                i < n,
                forall|k: int| i <= k < j ==> array@[min as int] <= array@[k],
            decreases n - j,
        {
            if array[min] > array[j] {
                min = j;
            }
            j = j + 1;
        }
        if min != i {
            let vi = array[i];
            let vm = array[min];
            array[i] = vm;
            array[min] = vi;
            proof {
                lemma_swap_preserves_multiset(s_iter, i as int, min as int);
                assert(array@ =~= s_iter.update(i as int, s_iter[min as int]).update(
                    min as int,
                    s_iter[i as int],
                ));
            }
        }
        proof {
            assert(array@[i as int] == s_iter[min as int]);
            assert(array@[min as int] == s_iter[i as int]);
            assert(forall|k: int|
                0 <= k < n && k != i && k != min ==> array@[k] == s_iter[k]);
            assert forall|p: int, q: int| 0 <= p <= q < i + 1 implies #[trigger] array@.take(
                i + 1,
            )[p] <= #[trigger] array@.take(i + 1)[q] by {
                assert(array@.take(i + 1)[p] == array@[p]);
                assert(array@.take(i + 1)[q] == array@[q]);
                if q < i {
                    assert(s_iter.take(i as int)[p] == s_iter[p]);
                    assert(s_iter.take(i as int)[q] == s_iter[q]);
                }
            }
            assert(sorted(array@.take(i + 1)));
            assert forall|p: int, q: int| 0 <= p < i + 1 && i + 1 <= q < n implies array@[p]
                <= array@[q] by {
                if p < i {
                    assert(s_iter[p] <= s_iter[q]);
                    assert(s_iter[p] <= s_iter[i as int]);
                }
            }
        }
        i = i + 1;
    }
    proof {
        assert(array@.take(n as int) =~= array@);
    }
}

/// Selection sort of an owned array; the sorted array comes back.
pub fn func_sort(array: Vec<i32>) -> (r: Vec<i32>)
    ensures
        sorted(r@),
        r@.to_multiset() == array@.to_multiset(),
{
    let mut a = array;
    sort(&mut a);
    a
}

} // verus!
