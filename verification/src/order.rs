//! Stable sorting of display rows by a strict weak order of their own.

use vstd::prelude::*;

verus! {

/// Rows that are listed in an order of their own.
pub trait Ranked: Sized {
    /// `self` is listed strictly before `other`.
    spec fn ranks_before(&self, other: &Self) -> bool;

    /// Decide [`Ranked::ranks_before`].
    fn comes_before(&self, other: &Self) -> (r: bool)
        ensures
            r == self.ranks_before(other),
    ;

    /// The order is a strict weak order: irreflexive, transitive, and
    /// "neither before the other" is transitive too.
    proof fn lemma_strict_weak_order(a: &Self, b: &Self, c: &Self)
        ensures
            !a.ranks_before(a),
            a.ranks_before(b) && b.ranks_before(c) ==> a.ranks_before(c),
            (!a.ranks_before(b) && !b.ranks_before(a) && !b.ranks_before(c) && !c.ranks_before(b))
                ==> (!a.ranks_before(c) && !c.ranks_before(a)),
    ;
}

/// `s` with `x` placed after every element that `x` does not rank before.
pub open spec fn insert_ranked<T: Ranked>(s: Seq<T>, x: T) -> Seq<T>
    decreases s.len(),
{
    if s.len() == 0 {
        seq![x]
    } else if x.ranks_before(&s.last()) {
        insert_ranked(s.drop_last(), x).push(s.last())
    } else {
        s.push(x)
    }
}

/// The stable sort of `s`: elements are inserted in the order they come in,
/// each after every element it does not rank before, so equal-ranked
/// elements keep their relative order.
pub open spec fn stable_sorted<T: Ranked>(s: Seq<T>) -> Seq<T>
    decreases s.len(),
{
    if s.len() == 0 {
        s
    } else {
        insert_ranked(stable_sorted(s.drop_last()), s.last())
    }
}

/// No element of `s` ranks before an element to its left.
pub open spec fn is_ranked<T: Ranked>(s: Seq<T>) -> bool {
    forall|i: int, j: int| #![trigger s[i], s[j]] 0 <= i < j < s.len() ==> !s[j].ranks_before(&s[i])
}

proof fn lemma_insert_at<T: Ranked>(s: Seq<T>, x: T, j: int)
    requires
        0 <= j <= s.len(),
        forall|k: int| #![trigger s[k]] j <= k < s.len() ==> x.ranks_before(&s[k]),
        j > 0 ==> !x.ranks_before(&s[j - 1]),
    ensures
        insert_ranked(s, x) == s.insert(j, x),
    decreases s.len(),
{
    if s.len() == 0 {
        assert(s.insert(j, x) =~= seq![x]);
    } else if j == s.len() {
        assert(s.insert(j, x) =~= s.push(x));
    } else {
        assert(x.ranks_before(&s[s.len() - 1]));
        let init = s.drop_last();
        assert forall|k: int| #![trigger init[k]] j <= k < init.len() implies x.ranks_before(&init[k]) by {
            assert(init[k] == s[k]);
        }
        if j > 0 {
            assert(init[j - 1] == s[j - 1]);
        }
        lemma_insert_at(init, x, j);
        assert(init.insert(j, x).push(s.last()) =~= s.insert(j, x));
    }
}

/// Insert `x` into the ranked vector `v` after every element it does not
/// rank before.
fn insert_into<T: Ranked>(v: &mut Vec<T>, x: T)
    ensures
        final(v)@ == insert_ranked(old(v)@, x),
{
    let mut j: usize = v.len();
    while j > 0 && x.comes_before(&v[j - 1])
        invariant
            j <= v@.len(),
            v@ == old(v)@,
            forall|k: int| #![trigger v@[k]] j <= k < v@.len() ==> x.ranks_before(&v@[k]),
        decreases j,
    {
        j -= 1;
    }
    proof {
        lemma_insert_at(v@, x, j as int);
    }
    v.insert(j, x);
}

/// Sort `v` stably by the rows' own order (as `sort_by` does).
pub fn sort_ranked<T: Ranked>(v: Vec<T>) -> (r: Vec<T>)
    ensures
        r@ == stable_sorted(v@),
{
    let mut rest = v;
    let ghost all = rest@;
    let total: usize = rest.len();
    let mut out: Vec<T> = Vec::new();
    let mut k: usize = 0;
    while rest.len() > 0
        invariant
            k + rest@.len() == all.len(),
            all.len() == total,
            rest@ == all.skip(k as int),
            out@ == stable_sorted(all.take(k as int)),
        decreases rest@.len(),
    {
        let x = rest.remove(0);
        proof {
            assert(all.take(k + 1).drop_last() =~= all.take(k as int));
            assert(all.take(k + 1).last() == x);
        }
        insert_into(&mut out, x);
        k += 1;
        assert(rest@ =~= all.skip(k as int));
    }
    assert(all.take(k as int) =~= all);
    out
}

proof fn lemma_insert_ranked_props<T: Ranked>(s: Seq<T>, x: T)
    requires
        is_ranked(s),
    ensures
        is_ranked(insert_ranked(s, x)),
        insert_ranked(s, x).to_multiset() == s.to_multiset().insert(x),
    decreases s.len(),
{
    broadcast use vstd::multiset::group_multiset_axioms;
    let r = insert_ranked(s, x);
    if s.len() == 0 {
        assert(seq![x].to_multiset() =~= s.to_multiset().insert(x)) by {
            broadcast use vstd::seq_lib::group_to_multiset_ensures;
        }
        assert(is_ranked(r));
    } else if x.ranks_before(&s.last()) {
        let init = s.drop_last();
        let l = s.last();
        assert(is_ranked(init)) by {
            assert forall|i: int, j: int| #![trigger init[i], init[j]] 0 <= i < j < init.len() implies !init[j].ranks_before(&init[i]) by {
                assert(init[i] == s[i] && init[j] == s[j]);
            }
        }
        lemma_insert_ranked_props(init, x);
        let mid = insert_ranked(init, x);
        broadcast use vstd::seq_lib::group_to_multiset_ensures;
        assert(s =~= init.push(l));
        assert(r =~= mid.push(l));
        // Every element of `mid` is `x` or an element of `init`; none ranks `l` ... below.
        assert forall|i: int| #![trigger mid[i]] 0 <= i < mid.len() implies !l.ranks_before(&mid[i]) by {
            assert(mid.to_multiset().count(mid[i]) > 0);
            assert(s.to_multiset() == init.to_multiset().insert(l));
            if mid[i] == x {
                T::lemma_strict_weak_order(&x, &l, &x);
            } else {
                assert(init.to_multiset().count(mid[i]) > 0);
                assert(init.contains(mid[i]));
                let k = choose|k: int| 0 <= k < init.len() && init[k] == mid[i];
                assert(s[k] == init[k]);
                assert(s[s.len() - 1] == l);
            }
        }
        assert forall|i: int, j: int| #![trigger r[i], r[j]] 0 <= i < j < r.len() implies !r[j].ranks_before(&r[i]) by {
            if j == r.len() - 1 {
                assert(r[j] == l);
                assert(r[i] == mid[i]);
            } else {
                assert(r[i] == mid[i] && r[j] == mid[j]);
            }
        }
        assert(r.to_multiset() =~= s.to_multiset().insert(x));
    } else {
        broadcast use vstd::seq_lib::group_to_multiset_ensures;
        assert forall|i: int, j: int| #![trigger r[i], r[j]] 0 <= i < j < r.len() implies !r[j].ranks_before(&r[i]) by {
            if j == r.len() - 1 {
                assert(r[j] == x);
                assert(r[i] == s[i]);
                let l = s.last();
                if i < s.len() - 1 {
                    assert(!s[s.len() - 1].ranks_before(&s[i]));
                    T::lemma_strict_weak_order(&x, &s[i], &l);
                    T::lemma_strict_weak_order(&s[i], &l, &x);
                    T::lemma_strict_weak_order(&x, &l, &s[i]);
                    T::lemma_strict_weak_order(&l, &x, &s[i]);
                    T::lemma_strict_weak_order(&l, &s[i], &x);
                    T::lemma_strict_weak_order(&s[i], &x, &l);
                }
            } else {
                assert(r[i] == s[i] && r[j] == s[j]);
            }
        }
        assert(r.to_multiset() =~= s.to_multiset().insert(x));
    }
}

/// Law: the stable sort is a rearrangement of its input with no element
/// ranked before one to its left.
pub proof fn lemma_stable_sorted<T: Ranked>(s: Seq<T>)
    ensures
        is_ranked(stable_sorted(s)),
        stable_sorted(s).to_multiset() == s.to_multiset(),
    decreases s.len(),
{
    broadcast use vstd::multiset::group_multiset_axioms;
    broadcast use vstd::seq_lib::group_to_multiset_ensures;
    if s.len() == 0 {
        assert(is_ranked(s));
    } else {
        let init = s.drop_last();
        lemma_stable_sorted(init);
        lemma_insert_ranked_props(stable_sorted(init), s.last());
        assert(s =~= init.push(s.last()));
    }
}

} // verus!
