//! Total preorders and a verified stable insertion sort.

use vstd::prelude::*;

verus! {

broadcast use vstd::seq_lib::group_to_multiset_ensures;

/// A total preorder on a type, with an executable comparison that agrees with it.
pub trait TotalOrder: Sized {
    /// `self` may stand before `other` in a sorted sequence.
    spec fn le(self, other: Self) -> bool;

    proof fn le_total(a: Self, b: Self)
        ensures
            a.le(b) || b.le(a),
    ;

    proof fn le_transitive(a: Self, b: Self, c: Self)
        requires
            a.le(b),
            b.le(c),
        ensures
            a.le(c),
    ;

    fn le_exec(&self, other: &Self) -> (r: bool)
        ensures
            r == self.le(*other),
    ;
}

/// Every element may stand before every later element.
pub open spec fn sorted<T: TotalOrder>(s: Seq<T>) -> bool {
    forall|i: int, j: int| 0 <= i < j < s.len() ==> #[trigger] s[i].le(#[trigger] s[j])
}

/// Where a stable insertion places `x` in `s`: after the last element that may
/// stand before it.
pub open spec fn insert_pos<T: TotalOrder>(s: Seq<T>, x: T) -> nat
    decreases s.len(),
{
    if s.len() == 0 {
        0
    } else if s.last().le(x) {
        s.len()
    } else {
        insert_pos(s.drop_last(), x)
    }
}

/// Stable insertion sort: elements are inserted in their original order.
pub open spec fn isort<T: TotalOrder>(s: Seq<T>) -> Seq<T>
    decreases s.len(),
{
    if s.len() == 0 {
        s
    } else {
        let r = isort(s.drop_last());
        r.insert(insert_pos(r, s.last()) as int, s.last())
    }
}

proof fn lemma_insert_pos_bounds<T: TotalOrder>(s: Seq<T>, x: T)
    ensures
        insert_pos(s, x) <= s.len(),
        forall|k: int| insert_pos(s, x) <= k < s.len() ==> !(#[trigger] s[k]).le(x),
        insert_pos(s, x) > 0 ==> s[insert_pos(s, x) - 1].le(x),
    decreases s.len(),
{
    if s.len() > 0 && !s.last().le(x) {
        lemma_insert_pos_bounds(s.drop_last(), x);
        assert forall|k: int| insert_pos(s, x) <= k < s.len() implies !(#[trigger] s[k]).le(x) by {
            if k < s.len() - 1 {
                assert(s[k] == s.drop_last()[k]);
            }
        }
    }
}

/// Stable insertion sort keeps exactly the same elements.
pub proof fn lemma_isort_permutation<T: TotalOrder>(s: Seq<T>)
    ensures
        isort(s).to_multiset() == s.to_multiset(),
        isort(s).len() == s.len(),
    decreases s.len(),
{
    if s.len() > 0 {
        let r = isort(s.drop_last());
        lemma_isort_permutation(s.drop_last());
        lemma_insert_pos_bounds(r, s.last());
        assert(s.drop_last().push(s.last()) =~= s);
        vstd::seq_lib::to_multiset_build(s.drop_last(), s.last());
        vstd::seq_lib::to_multiset_insert(r, insert_pos(r, s.last()) as int, s.last());
    }
}

/// Stable insertion sort produces a sorted sequence.
pub proof fn lemma_isort_sorted<T: TotalOrder>(s: Seq<T>)
    ensures
        sorted(isort(s)),
    decreases s.len(),
{
    if s.len() > 0 {
        let x = s.last();
        let r = isort(s.drop_last());
        lemma_isort_sorted(s.drop_last());
        lemma_insert_pos_bounds(r, x);
        let p = insert_pos(r, x) as int;
        let out = r.insert(p, x);
        assert forall|i: int, j: int| 0 <= i < j < out.len() implies #[trigger] out[i].le(
            #[trigger] out[j],
        ) by {
            if j < p {
                assert(out[i] == r[i] && out[j] == r[j]);
            } else if j == p {
                assert(out[i] == r[i]);
                if i < p - 1 {
                    T::le_transitive(r[i], r[p - 1], x);
                }
            } else if i == p {
                assert(out[j] == r[j - 1]);
                T::le_total(x, r[j - 1]);
            } else if i < p {
                assert(out[i] == r[i] && out[j] == r[j - 1]);
            } else {
                assert(out[i] == r[i - 1] && out[j] == r[j - 1]);
            }
        }
    }
}

/// Sort `v` stably by the total preorder of `T`.
pub fn sort_stable<T: TotalOrder>(v: Vec<T>) -> (r: Vec<T>)
    ensures
        r@ == isort(v@),
        sorted(r@),
        r@.to_multiset() == v@.to_multiset(),
{
    let ghost input = v@;
    let mut out: Vec<T> = Vec::new();
    for x in it: v.into_iter()
        invariant
            it.seq() == input,
            out@ == isort(input.take(it.index() as int)),
    {
        let ghost done = input.take(it.index() as int);
        let mut j = out.len();
        assert(out@.take(j as int) =~= out@);
        while j > 0 && !out[j - 1].le_exec(&x)
            invariant
                j <= out.len(),
                insert_pos(out@, x) == insert_pos(out@.take(j as int), x),
            decreases j,
        {
            assert(out@.take(j as int).drop_last() =~= out@.take(j - 1));
            j = j - 1;
        }
        proof {
            if j > 0 {
                assert(out@.take(j as int).last() == out@[j - 1]);
            }
            assert(input.take(it.index() + 1).drop_last() =~= done);
            assert(input.take(it.index() + 1).last() == x);
        }
        out.insert(j, x);
    }
    proof {
        assert(input.take(input.len() as int) =~= input);
        lemma_isort_sorted(input);
        lemma_isort_permutation(input);
    }
    out
}

} // verus!
