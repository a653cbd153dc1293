use vstd::multiset::Multiset;
use vstd::prelude::*;

verus! {

/// The multiset of keys given by the first `n` slots of a board scan:
/// a slot holds `Some(key)` when it yields a child, `None` when it does not.
pub open spec fn opt_ms(s: Seq<Option<u64>>, n: int) -> Multiset<u64>
    decreases n,
{
    if n <= 0 {
        Multiset::<u64>::empty()
    } else {
        match s[n - 1] {
            Option::Some(k) => opt_ms(s, n - 1).insert(k),
            Option::None => opt_ms(s, n - 1),
        }
    }
}

/// How many of the first `n` slots give `e`: the first `n` slots.
pub open spec fn opt_count(s: Seq<Option<u64>>, n: int, e: u64) -> int
    decreases n,
{
    if n <= 0 {
        0
    } else {
        opt_count(s, n - 1, e) + if s[n - 1] == Some(e) {
            1int
        } else {
            0int
        }
    }
}

/// `opt_ms` counts each key exactly `opt_count` often.
pub proof fn lemma_opt_ms_count(s: Seq<Option<u64>>, n: int, e: u64)
    requires
        n >= 0,
    ensures
        opt_ms(s, n).count(e) == opt_count(s, n, e),
    decreases n,
{
    broadcast use vstd::multiset::group_multiset_axioms;

    if n > 0 {
        lemma_opt_ms_count(s, n - 1, e);
    }
}

/// Filtering a sequence and collecting the result into a multiset is the
/// same as collecting first and filtering the multiset.
pub proof fn lemma_filter_multiset_commute<A>(s: Seq<A>, pred: spec_fn(A) -> bool)
    ensures
        s.filter(pred).to_multiset() == s.to_multiset().filter(pred),
    decreases s.len(),
{
    broadcast use vstd::seq_lib::group_to_multiset_ensures;
    broadcast use vstd::multiset::group_multiset_axioms;

    reveal(Seq::filter);
    if s.len() == 0 {
        assert(s.filter(pred).to_multiset() =~= s.to_multiset().filter(pred));
    } else {
        let t = s.drop_last();
        let x = s.last();
        lemma_filter_multiset_commute(t, pred);
        assert(s =~= t.push(x));
        assert(s.to_multiset() == t.push(x).to_multiset());
        assert(t.push(x).to_multiset() == t.to_multiset().insert(x));
        if pred(x) {
            assert(s.filter(pred) == t.filter(pred).push(x));
            assert(s.filter(pred).to_multiset() == t.filter(pred).to_multiset().insert(x));
        }
        assert(s.filter(pred).to_multiset() =~= s.to_multiset().filter(pred));
    }
}

/// Two sequences with the same multiset of elements filter to two sequences
/// with the same multiset of elements.
pub proof fn lemma_filter_to_multiset<A>(s1: Seq<A>, s2: Seq<A>, pred: spec_fn(A) -> bool)
    requires
        s1.to_multiset() == s2.to_multiset(),
    ensures
        s1.filter(pred).to_multiset() == s2.filter(pred).to_multiset(),
{
    lemma_filter_multiset_commute(s1, pred);
    lemma_filter_multiset_commute(s2, pred);
}

/// Mapping a function over two sequences with the same multiset of elements
/// yields two sequences with the same multiset of images.
pub proof fn lemma_map_values_to_multiset<A, B>(s1: Seq<A>, s2: Seq<A>, f: spec_fn(A) -> B)
    requires
        s1.to_multiset() == s2.to_multiset(),
    ensures
        s1.map_values(f).to_multiset() == s2.map_values(f).to_multiset(),
    decreases s1.len(),
{
    broadcast use vstd::seq_lib::group_to_multiset_ensures;

    if s1.len() == 0 {
        assert(s1.to_multiset().len() == s1.len());
        assert(s2.to_multiset().len() == s2.len());
        assert(s2.len() == 0);
        assert(s1.map_values(f) =~= s2.map_values(f));
    } else {
        let a = s1[0];
        assert(s1.contains(a));
        assert(s1.to_multiset().count(a) > 0);
        assert(s2.to_multiset().count(a) > 0);
        assert(s2.contains(a));
        let j = choose|j: int| 0 <= j < s2.len() && s2[j] == a;
        let t1 = s1.remove(0);
        let t2 = s2.remove(j);
        assert(t1.to_multiset() == s1.to_multiset().remove(a));
        assert(t2.to_multiset() == s2.to_multiset().remove(a));
        lemma_map_values_to_multiset(t1, t2, f);
        let m1 = s1.map_values(f).to_multiset();
        let m2 = s2.map_values(f).to_multiset();
        assert(t1.map_values(f) =~= s1.map_values(f).remove(0));
        assert(t2.map_values(f) =~= s2.map_values(f).remove(j));
        assert(s1.map_values(f).remove(0).to_multiset() == m1.remove(f(a)));
        assert(s2.map_values(f)[j] == f(a));
        assert(s2.map_values(f).remove(j).to_multiset() == m2.remove(f(a)));
        assert(s1.map_values(f)[0] == f(a));
        assert(s1.map_values(f).contains(f(a)));
        assert(s2.map_values(f).contains(f(a)));
        assert(m1.count(f(a)) > 0);
        assert(m2.count(f(a)) > 0);
        assert(m1.remove(f(a)) == m2.remove(f(a)));
        assert forall|b: B| m1.count(b) == m2.count(b) by {
            if b == f(a) {
                assert(m1.remove(f(a)).count(b) == m1.count(b) - 1);
                assert(m2.remove(f(a)).count(b) == m2.count(b) - 1);
            } else {
                assert(m1.remove(f(a)).count(b) == m1.count(b));
                assert(m2.remove(f(a)).count(b) == m2.count(b));
            }
        }
        assert(m1 =~= m2);
    }
}

} // verus!
