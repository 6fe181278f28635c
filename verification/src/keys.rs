//! The ordered key sequence of a map keyed by process id.

use vstd::prelude::*;
use vstd::std_specs::btree::{increasing_seq, key_obeys_cmp_spec};
use vstd::std_specs::cmp::OrdSpec;

verus! {

/// Every element is smaller than the ones after it.
pub open spec fn strictly_increasing(s: Seq<u32>) -> bool {
    forall|i: int, j: int| 0 <= i < j < s.len() ==> s[i] < s[j]
}

/// The elements of a finite set of process ids, in ascending order.
pub open spec fn sorted_keys(dom: Set<u32>) -> Seq<u32> {
    choose|s: Seq<u32>| strictly_increasing(s) && s.to_set() == dom
}

/// Two ascending sequences with the same elements are the same sequence.
pub proof fn lemma_sorted_unique(s1: Seq<u32>, s2: Seq<u32>)
    requires
        strictly_increasing(s1),
        strictly_increasing(s2),
        s1.to_set() == s2.to_set(),
    ensures
        s1 == s2,
    decreases s1.len(),
{
    if s1.len() == 0 {
        if s2.len() > 0 {
            assert(s2.to_set().contains(s2[0]));
        }
        assert(s1 =~= s2);
    } else if s2.len() == 0 {
        assert(s1.to_set().contains(s1[0]));
    } else {
        assert(s2.to_set().contains(s1[0]));
        let j = choose|j: int| 0 <= j < s2.len() && s2[j] == s1[0];
        assert(s1.to_set().contains(s2[0]));
        let k = choose|k: int| 0 <= k < s1.len() && s1[k] == s2[0];
        assert(s1[0] == s2[0]);
        let t1 = s1.drop_first();
        let t2 = s2.drop_first();
        assert forall|x: u32| t1.to_set().contains(x) implies t2.to_set().contains(x) by {
            let i = choose|i: int| 0 <= i < t1.len() && t1[i] == x;
            assert(s1[i + 1] == x);
            assert(s1.to_set().contains(x));
            let m = choose|m: int| 0 <= m < s2.len() && s2[m] == x;
            assert(m != 0);
            assert(t2[m - 1] == x);
        }
        assert forall|x: u32| t2.to_set().contains(x) implies t1.to_set().contains(x) by {
            let i = choose|i: int| 0 <= i < t2.len() && t2[i] == x;
            assert(s2[i + 1] == x);
            assert(s2.to_set().contains(x));
            let m = choose|m: int| 0 <= m < s1.len() && s1[m] == x;
            assert(m != 0);
            assert(t1[m - 1] == x);
        }
        assert(t1.to_set() =~= t2.to_set());
        lemma_sorted_unique(t1, t2);
        assert(s1 =~= seq![s1[0]] + t1);
        assert(s2 =~= seq![s2[0]] + t2);
    }
}

/// Every finite set of process ids has an ascending sequence of its elements.
pub proof fn lemma_sorted_keys_exist(dom: Set<u32>)
    requires
        dom.finite(),
    ensures
        strictly_increasing(sorted_keys(dom)),
        sorted_keys(dom).to_set() == dom,
        sorted_keys(dom).len() == dom.len(),
{
    let t = ascending_witness(dom);
    assert(strictly_increasing(t) && t.to_set() == dom);
    lemma_sorted_keys_of(t);
    lemma_ascending_len(t);
}

/// The length of an ascending sequence is the number of its elements.
proof fn lemma_ascending_len(s: Seq<u32>)
    requires
        strictly_increasing(s),
    ensures
        s.to_set().len() == s.len(),
{
    assert(s.no_duplicates());
    s.unique_seq_to_set();
}

/// An ascending sequence of the elements of a finite set, built from its minimum.
proof fn ascending_witness(dom: Set<u32>) -> (t: Seq<u32>)
    requires
        dom.finite(),
    ensures
        strictly_increasing(t),
        t.to_set() == dom,
    decreases dom.len(),
{
    if dom.len() == 0 {
        let t = Seq::<u32>::empty();
        assert(t.to_set() =~= dom);
        t
    } else {
        let leq = |a: u32, b: u32| a <= b;
        assert(vstd::relations::total_ordering(leq));
        dom.find_unique_minimal_ensures(leq);
        let m = dom.find_unique_minimal(leq);
        assert forall|x: u32| dom.contains(x) implies m <= x by {
            assert(leq(x, m) ==> leq(m, x));
        }
        let rest = ascending_witness(dom.remove(m));
        let t = seq![m] + rest;
        assert forall|i: int, j: int| 0 <= i < j < t.len() implies t[i] < t[j] by {
            if i == 0 {
                assert(rest.to_set().contains(t[j]));
            }
        }
        assert forall|x: u32| t.to_set().contains(x) <==> dom.contains(x) by {
            if dom.contains(x) && x != m {
                assert(dom.remove(m).contains(x));
                assert(rest.to_set().contains(x));
                let k = choose|k: int| 0 <= k < rest.len() && rest[k] == x;
                assert(t[k + 1] == x);
                assert(t.contains(x));
            }
            if x == m {
                assert(t[0] == x);
                assert(t.contains(x));
            }
            if t.to_set().contains(x) {
                let k = choose|k: int| 0 <= k < t.len() && t[k] == x;
                if k > 0 {
                    assert(rest[k - 1] == x);
                    assert(rest.contains(x));
                    assert(rest.to_set().contains(x));
                    assert(dom.remove(m).contains(x));
                }
            }
        }
        assert(t.to_set() =~= dom);
        t
    }
}

/// An ascending sequence is the sorted sequence of its own elements.
pub proof fn lemma_sorted_keys_of(s: Seq<u32>)
    requires
        strictly_increasing(s),
    ensures
        sorted_keys(s.to_set()) == s,
{
    let t = sorted_keys(s.to_set());
    assert(strictly_increasing(t) && t.to_set() == s.to_set());
    lemma_sorted_unique(t, s);
}

/// What the standard library's ordering promise on `u32` keys means.
pub proof fn lemma_increasing_u32(s: Seq<&u32>)
    requires
        increasing_seq(s),
    ensures
        strictly_increasing(s.unref()),
{
    broadcast use vstd::laws_cmp::group_laws_cmp;
    vstd::std_specs::btree::axiom_increasing_seq_meaning(s);
    assert forall|i: int, j: int| 0 <= i < j < s.unref().len() implies s.unref()[i] < s.unref()[j] by {
        assert(OrdSpec::cmp_spec(&s[i], &s[j]) is Less);
    }
}

/// Process-id keys obey the ordering that the standard map's specification relies on.
pub proof fn lemma_u32_key_order()
    ensures
        key_obeys_cmp_spec::<u32>(),
{
    broadcast use vstd::laws_cmp::group_laws_cmp;
}

} // verus!
