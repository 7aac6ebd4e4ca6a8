//! Insertion sort for any type with a total preorder.

use vstd::prelude::*;
use vstd::multiset::Multiset;

verus! {

broadcast use vstd::seq_lib::group_to_multiset_ensures;

/// A total preorder with an executable test.
pub trait Ordered: Sized {
    spec fn le(self, other: Self) -> bool;

    fn le_exec(&self, other: &Self) -> (r: bool)
        ensures
            r == self.le(*other),
    ;

    proof fn lemma_total(a: Self, b: Self)
        ensures
            a.le(b) || b.le(a),
    ;

    proof fn lemma_trans(a: Self, b: Self, c: Self)
        requires
            a.le(b),
            b.le(c),
        ensures
            a.le(c),
    ;
}

pub open spec fn sorted<T: Ordered>(s: Seq<T>) -> bool {
    forall|i: int, j: int| 0 <= i < j < s.len() ==> #[trigger] s[i].le(#[trigger] s[j])
}

/// Inserts `x` into the sorted vector `r` keeping it sorted.
fn insert_sorted<T: Ordered>(r: &mut Vec<T>, x: T)
    requires
        sorted(old(r)@),
    ensures
        sorted(final(r)@),
        final(r)@.to_multiset() == old(r)@.to_multiset().insert(x),
{
    let mut p: usize = 0;
    while p < r.len() && r[p].le_exec(&x)
        invariant
            p <= r@.len(),
            forall|k: int| 0 <= k < p ==> #[trigger] r@[k].le(x),
        decreases r@.len() - p,
    {
        p = p + 1;
    }
    let ghost s = r@;
    proof {
        if p < s.len() {
            T::lemma_total(s[p as int], x);
            assert forall|j: int| p <= j < s.len() implies x.le(#[trigger] s[j]) by {
                if j > p {
                    assert(s[p as int].le(s[j]));
                    T::lemma_trans(x, s[p as int], s[j]);
                }
            }
        }
    }
    r.insert(p, x);
    proof {
        let t = r@;
        assert(t == s.insert(p as int, x));
        assert forall|i: int, j: int| 0 <= i < j < t.len() implies #[trigger] t[i].le(
            #[trigger] t[j],
        ) by {
            if j < p {
                assert(t[i] == s[i] && t[j] == s[j]);
            } else if j == p {
                assert(t[i] == s[i]);
            } else if i == p {
                assert(t[j] == s[j - 1]);
            } else if i < p {
                assert(t[i] == s[i] && t[j] == s[j - 1]);
            } else {
                assert(t[i] == s[i - 1] && t[j] == s[j - 1]);
            }
        }
    }
}

/// The elements of `v`, sorted.
pub fn sort_by_order<T: Ordered>(v: Vec<T>) -> (r: Vec<T>)
    ensures
        sorted(r@),
        r@.to_multiset() == v@.to_multiset(),
        r@.len() == v@.len(),
{
    let ghost orig = v@;
    let mut rest = v;
    let mut r: Vec<T> = Vec::new();
    while rest.len() > 0
        invariant
            sorted(r@),
            r@.to_multiset().add(rest@.to_multiset()) == orig.to_multiset(),
        decreases rest@.len(),
    {
        let ghost before = rest@;
        let x = rest.pop().unwrap();
        proof {
            assert(before == rest@.push(x));
        }
        insert_sorted(&mut r, x);
    }
    proof {
        assert(rest@.to_multiset() =~= Multiset::empty());
        assert(r@.to_multiset() =~= orig.to_multiset());
        r@.to_multiset_ensures();
        orig.to_multiset_ensures();
    }
    r
}

/// Mapping two sequences with the same elements gives sequences with the
/// same elements.
pub proof fn lemma_map_to_multiset<A, B>(s: Seq<A>, t: Seq<A>, f: spec_fn(A) -> B)
    requires
        s.to_multiset() == t.to_multiset(),
    ensures
        s.map_values(f).to_multiset() == t.map_values(f).to_multiset(),
    decreases s.len(),
{
    broadcast use vstd::multiset::group_multiset_axioms;

    s.to_multiset_ensures();
    t.to_multiset_ensures();
    if s.len() == 0 {
        assert(s.map_values(f) =~= Seq::<B>::empty());
        assert(t.map_values(f) =~= Seq::<B>::empty());
    } else {
        let x = s.last();
        let s1 = s.drop_last();
        assert(s1.push(x) =~= s);
        s1.to_multiset_ensures();
        assert(s.to_multiset().count(x) > 0);
        assert(t.contains(x));
        let j = choose|j: int| 0 <= j < t.len() && t[j] == x;
        let t1 = t.remove(j);
        assert(t1.to_multiset() =~= s1.to_multiset());
        lemma_map_to_multiset(s1, t1, f);
        let ms = s.map_values(f);
        let mt = t.map_values(f);
        assert(ms =~= s1.map_values(f).push(f(x)));
        s1.map_values(f).to_multiset_ensures();
        assert(mt.remove(j) =~= t1.map_values(f));
        mt.to_multiset_ensures();
        assert(mt[j] == f(x));
        assert(mt.to_multiset().count(f(x)) > 0) by {
            assert(mt.contains(f(x)));
        }
        assert(ms.to_multiset() =~= mt.to_multiset());
    }
}

} // verus!
