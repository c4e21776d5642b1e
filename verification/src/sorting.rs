//! Stable insertion order by an integer key, as a specification, with its
//! laws: the result is ordered by the key and holds the same elements.
use vstd::prelude::*;

verus! {

/// Where `x` with key `k` goes among `s`: after every leading element whose
/// key is not greater than `k` (so that equal keys keep their order).
pub open spec fn insertion_point<T>(s: Seq<T>, k: int, key: spec_fn(T) -> int) -> int
    decreases s.len(),
{
    if s.len() == 0 {
        0
    } else if key(s[0]) > k {
        0
    } else {
        1 + insertion_point(s.drop_first(), k, key)
    }
}

/// `s` ordered by `key`, equal keys in their original order.
pub open spec fn sort_by_key<T>(s: Seq<T>, key: spec_fn(T) -> int) -> Seq<T>
    decreases s.len(),
{
    if s.len() == 0 {
        s
    } else {
        let r = sort_by_key(s.drop_last(), key);
        r.insert(insertion_point(r, key(s.last()), key), s.last())
    }
}

/// Every element's key is at most that of each later element.
pub open spec fn sorted_by<T>(s: Seq<T>, key: spec_fn(T) -> int) -> bool {
    forall|i: int, j: int| 0 <= i <= j < s.len() ==> key(s[i]) <= key(s[j])
}

pub proof fn lemma_insertion_point<T>(s: Seq<T>, k: int, key: spec_fn(T) -> int)
    ensures
        0 <= insertion_point(s, k, key) <= s.len(),
        forall|i: int| 0 <= i < insertion_point(s, k, key) ==> key(s[i]) <= k,
        insertion_point(s, k, key) < s.len() ==> key(s[insertion_point(s, k, key)]) > k,
    decreases s.len(),
{
    if s.len() > 0 && key(s[0]) <= k {
        lemma_insertion_point(s.drop_first(), k, key);
        assert forall|i: int| 0 <= i < insertion_point(s, k, key) implies key(s[i]) <= k by {
            if i > 0 {
                assert(s[i] == s.drop_first()[i - 1]);
            }
        }
    }
}

/// `insertion_point` is the first index whose key exceeds `k`.
pub proof fn lemma_insertion_point_is<T>(s: Seq<T>, k: int, key: spec_fn(T) -> int, j: int)
    requires
        0 <= j <= s.len(),
        forall|i: int| 0 <= i < j ==> key(s[i]) <= k,
        j < s.len() ==> key(s[j]) > k,
    ensures
        insertion_point(s, k, key) == j,
    decreases j,
{
    if j > 0 {
        assert forall|i: int| 0 <= i < j - 1 implies key(s.drop_first()[i]) <= k by {
            assert(s.drop_first()[i] == s[i + 1]);
        }
        lemma_insertion_point_is(s.drop_first(), k, key, j - 1);
    }
}

/// Sorting by a key orders the elements by that key and keeps exactly the
/// same elements, as many times each.
pub proof fn lemma_sort_by_key<T>(s: Seq<T>, key: spec_fn(T) -> int)
    ensures
        sorted_by(sort_by_key(s, key), key),
        sort_by_key(s, key).to_multiset() == s.to_multiset(),
        sort_by_key(s, key).len() == s.len(),
    decreases s.len(),
{
    broadcast use vstd::seq_lib::group_to_multiset_ensures;

    if s.len() > 0 {
        let r = sort_by_key(s.drop_last(), key);
        lemma_sort_by_key(s.drop_last(), key);
        let x = s.last();
        let p = insertion_point(r, key(x), key);
        lemma_insertion_point(r, key(x), key);
        let out = r.insert(p, x);
        assert forall|i: int, j: int| 0 <= i <= j < out.len() implies key(out[i]) <= key(out[j]) by {
            if i < p && j < p {
            } else if i < p && j == p {
            } else if i < p {
                assert(out[j] == r[j - 1]);
                assert(key(r[i]) <= key(r[j - 1]));
            } else if i == p && j == p {
            } else if i == p {
                assert(out[j] == r[j - 1]);
                assert(key(r[p]) > key(x));
                assert(key(r[p]) <= key(r[j - 1]));
            } else {
                assert(out[i] == r[i - 1]);
                assert(out[j] == r[j - 1]);
            }
        }
        vstd::seq_lib::to_multiset_insert(r, p, x);
        assert(s.drop_last().push(x) =~= s);
        vstd::seq_lib::to_multiset_build(s.drop_last(), x);
    }
}

} // verus!
