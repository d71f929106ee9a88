//! Facts about sequences used as sets.

use vstd::prelude::*;

verus! {

/// A sequence without repeats has as many elements as its set.
pub proof fn lemma_distinct_len<T>(s: Seq<T>)
    requires
        forall|i: int, j: int| 0 <= i < j < s.len() ==> s[i] != s[j],
    ensures
        s.to_set().len() == s.len(),
{
    assert(s.no_duplicates()) by {
        assert forall|i: int, j: int|
            0 <= i < s.len() && 0 <= j < s.len() && i != j implies s[i] != s[j] by {
            if j < i {
                assert(s[j] != s[i]);
            }
        }
    }
    s.unique_seq_to_set();
}

/// Inserting `n` into a sequence adds `n` to its set.
pub proof fn lemma_insert_set<T>(before: Seq<T>, k: int, n: T)
    requires
        0 <= k <= before.len(),
    ensures
        before.insert(k, n).to_set() == before.to_set().insert(n),
{
    before.insert_ensures(k, n);
    let after = before.insert(k, n);
    assert forall|x: T| #[trigger]
        after.to_set().contains(x) <==> before.to_set().insert(n).contains(x) by {
        if after.contains(x) {
            let i = choose|i: int| 0 <= i < after.len() && after[i] == x;
            if i < k {
                assert(before[i] == x);
            } else if i > k {
                assert(before[i - 1] == x);
            }
        }
        if before.contains(x) {
            let i = choose|i: int| 0 <= i < before.len() && before[i] == x;
            if i < k {
                assert(after[i] == x);
            } else {
                assert(after[i + 1] == x);
            }
        }
        if x == n {
            assert(after[k] == n);
        }
    }
    assert(after.to_set() =~= before.to_set().insert(n));
}

} // verus!
