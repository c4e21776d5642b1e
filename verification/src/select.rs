//! Order-preserving selection and sets of identifiers.
use vstd::prelude::*;
use vstd::hash_set::StringHashSet;

verus! {

/// The elements of `s` that satisfy `pred`, in order.
pub open spec fn keep<T>(s: Seq<T>, pred: spec_fn(T) -> bool) -> Seq<T>
    decreases s.len(),
{
    if s.len() == 0 {
        seq![]
    } else {
        let r = keep(s.drop_last(), pred);
        if pred(s.last()) {
            r.push(s.last())
        } else {
            r
        }
    }
}

/// Every kept element satisfies the predicate and comes from `s`; every
/// element of `s` that satisfies it is kept.
pub proof fn lemma_keep<T>(s: Seq<T>, pred: spec_fn(T) -> bool)
    ensures
        forall|i: int| 0 <= i < keep(s, pred).len() ==> pred(#[trigger] keep(s, pred)[i]) && s.contains(keep(s, pred)[i]),
        forall|i: int| 0 <= i < s.len() && pred(#[trigger] s[i]) ==> keep(s, pred).contains(s[i]),
        keep(s, pred).len() <= s.len(),
    decreases s.len(),
{
    if s.len() > 0 {
        let p = s.drop_last();
        lemma_keep(p, pred);
        let r = keep(p, pred);
        assert forall|i: int| 0 <= i < keep(s, pred).len() implies pred(#[trigger] keep(s, pred)[i]) && s.contains(keep(s, pred)[i]) by {
            if i < r.len() {
                assert(keep(s, pred)[i] == r[i]);
                let j = choose|j: int| 0 <= j < p.len() && p[j] == r[i];
                assert(s[j] == p[j]);
            } else {
                assert(s[s.len() - 1] == s.last());
            }
        }
        assert forall|i: int| 0 <= i < s.len() && pred(#[trigger] s[i]) implies keep(s, pred).contains(s[i]) by {
            if i < s.len() - 1 {
                assert(p[i] == s[i]);
                let j = choose|j: int| 0 <= j < r.len() && r[j] == p[i];
                assert(keep(s, pred)[j] == r[j]);
            } else {
                assert(keep(s, pred)[keep(s, pred).len() - 1] == s.last());
            }
        }
    }
}

/// The views of a list of string slices, as a set.
pub open spec fn str_set(list: Seq<&str>) -> Set<Seq<char>>
    decreases list.len(),
{
    if list.len() == 0 {
        Set::empty()
    } else {
        str_set(list.drop_last()).insert(list.last()@)
    }
}

pub proof fn lemma_str_set(list: Seq<&str>, x: Seq<char>)
    ensures
        str_set(list).contains(x) <==> exists|i: int| 0 <= i < list.len() && (#[trigger] list[i])@ == x,
    decreases list.len(),
{
    if list.len() > 0 {
        lemma_str_set(list.drop_last(), x);
        if str_set(list.drop_last()).contains(x) {
            let i = choose|i: int| 0 <= i < list.drop_last().len() && (#[trigger] list.drop_last()[i])@ == x;
            assert(list[i] == list.drop_last()[i]);
        }
        if exists|i: int| 0 <= i < list.len() && (#[trigger] list[i])@ == x {
            let i = choose|i: int| 0 <= i < list.len() && (#[trigger] list[i])@ == x;
            if i < list.len() - 1 {
                assert(list.drop_last()[i] == list[i]);
            }
        }
    }
}

/// The set of the given identifiers.
pub fn string_set_of(list: &[&str]) -> (res: StringHashSet)
    ensures
        res@ == str_set(list@),
{
    let mut set = StringHashSet::new();
    let mut i: usize = 0;
    assert(list@.take(0) =~= seq![]);
    while i < list.len()
        invariant
            i <= list@.len(),
            set@ == str_set(list@.take(i as int)),
        decreases list@.len() - i,
    {
        let s = list[i];
        set.insert(String::from_str(s));
        assert(list@.take(i + 1).drop_last() =~= list@.take(i as int));
        i = i + 1;
    }
    assert(list@.take(list@.len() as int) =~= list@);
    set
}

} // verus!
