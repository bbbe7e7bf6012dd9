//! Order-independence laws. Parallel fan-out combines per-child results in
//! whatever order the pool finishes them; these lemmas state that a sum of
//! weights, and the multiset of a concatenation, depend only on the multiset
//! of children, never on the order they were processed in.

use vstd::prelude::*;
use vstd::seq_lib::group_to_multiset_ensures;
use vstd::seq_lib::lemma_multiset_commutative;
use vstd::multiset::group_multiset_axioms;

verus! {

/// Sum of a weight function over a sequence, left to right.
pub open spec fn sum_by<A>(s: Seq<A>, w: spec_fn(A) -> nat) -> nat
    decreases s.len(),
{
    if s.len() == 0 {
        0
    } else {
        w(s[0]) + sum_by(s.drop_first(), w)
    }
}

/// Concatenation of a sequence-valued function over a sequence.
pub open spec fn flat_by<A, B>(s: Seq<A>, f: spec_fn(A) -> Seq<B>) -> Seq<B>
    decreases s.len(),
{
    if s.len() == 0 {
        Seq::<B>::empty()
    } else {
        f(s[0]) + flat_by(s.drop_first(), f)
    }
}

/// Peeling one element off the unprocessed suffix of a weighted sum.
pub proof fn lemma_sum_by_skip_step<A>(s: Seq<A>, w: spec_fn(A) -> nat, i: int)
    requires
        0 <= i < s.len(),
    ensures
        sum_by(s.skip(i), w) == w(s[i]) + sum_by(s.skip(i + 1), w),
{
    assert(s.skip(i)[0] == s[i]);
    assert(s.skip(i).drop_first() =~= s.skip(i + 1));
}

/// A weighted sum splits over concatenation.
pub proof fn lemma_sum_by_concat<A>(a: Seq<A>, b: Seq<A>, w: spec_fn(A) -> nat)
    ensures
        sum_by(a + b, w) == sum_by(a, w) + sum_by(b, w),
    decreases a.len(),
{
    if a.len() == 0 {
        assert(a + b =~= b);
    } else {
        assert((a + b)[0] == a[0]);
        assert((a + b).drop_first() =~= a.drop_first() + b);
        lemma_sum_by_concat(a.drop_first(), b, w);
    }
}

/// A concatenation of per-element blocks splits at any boundary.
pub proof fn lemma_flat_by_split<A, B>(s: Seq<A>, f: spec_fn(A) -> Seq<B>, k: int)
    requires
        0 <= k <= s.len(),
    ensures
        flat_by(s, f) == flat_by(s.take(k), f) + flat_by(s.skip(k), f),
    decreases k,
{
    if k == 0 {
        assert(s.take(0) =~= Seq::<A>::empty());
        assert(s.skip(0) =~= s);
        assert(flat_by(s.take(0), f) + flat_by(s.skip(0), f) =~= flat_by(s, f));
    } else {
        lemma_flat_by_split(s.drop_first(), f, k - 1);
        assert(s.take(k)[0] == s[0]);
        assert(s.take(k).drop_first() =~= s.drop_first().take(k - 1));
        assert(s.skip(k) =~= s.drop_first().skip(k - 1));
        assert(flat_by(s, f) =~= flat_by(s.take(k), f) + flat_by(s.skip(k), f));
    }
}

/// Taking one element out of a sum leaves the sum of the rest.
pub proof fn lemma_sum_by_remove<A>(s: Seq<A>, w: spec_fn(A) -> nat, i: int)
    requires
        0 <= i < s.len(),
    ensures
        sum_by(s, w) == w(s[i]) + sum_by(s.remove(i), w),
    decreases s.len(),
{
    if i == 0 {
        assert(s.remove(0) =~= s.drop_first());
    } else {
        lemma_sum_by_remove(s.drop_first(), w, i - 1);
        assert(s.remove(i).drop_first() =~= s.drop_first().remove(i - 1));
        assert(s.remove(i)[0] == s[0]);
    }
}

/// Law: addition is order-independent. Two sequences holding the same
/// multiset of items — the serial order and any order a parallel pool
/// produced — have the same weighted sum. This is why a subtree's size is
/// one well-defined number however its siblings were scheduled.
pub proof fn lemma_sum_by_permutation<A>(a: Seq<A>, b: Seq<A>, w: spec_fn(A) -> nat)
    requires
        a.to_multiset() == b.to_multiset(),
    ensures
        sum_by(a, w) == sum_by(b, w),
    decreases a.len(),
{
    broadcast use group_to_multiset_ensures;

    if a.len() == 0 {
        assert(b.to_multiset().len() == 0);
    } else {
        let x = a[0];
        assert(a.contains(x));
        assert(b.to_multiset().count(x) > 0);
        assert(b.contains(x));
        let j = choose|j: int| 0 <= j < b.len() && b[j] == x;
        assert(a.drop_first() =~= a.remove(0));
        assert(a.remove(0).to_multiset() == a.to_multiset().remove(x));
        assert(b.remove(j).to_multiset() == b.to_multiset().remove(x));
        lemma_sum_by_permutation(a.drop_first(), b.remove(j), w);
        lemma_sum_by_remove(b, w, j);
    }
}

/// Taking one element out of a concatenation removes exactly its block.
pub proof fn lemma_flat_by_remove<A, B>(s: Seq<A>, f: spec_fn(A) -> Seq<B>, i: int)
    requires
        0 <= i < s.len(),
    ensures
        flat_by(s, f).to_multiset() == f(s[i]).to_multiset().add(
            flat_by(s.remove(i), f).to_multiset(),
        ),
    decreases s.len(),
{
    broadcast use group_multiset_axioms;

    if i == 0 {
        assert(s.remove(0) =~= s.drop_first());
        lemma_multiset_commutative(f(s[0]), flat_by(s.drop_first(), f));
    } else {
        lemma_flat_by_remove(s.drop_first(), f, i - 1);
        assert(s.remove(i).drop_first() =~= s.drop_first().remove(i - 1));
        assert(s.remove(i)[0] == s[0]);
        lemma_multiset_commutative(f(s[0]), flat_by(s.drop_first(), f));
        lemma_multiset_commutative(f(s[0]), flat_by(s.remove(i).drop_first(), f));
        assert(flat_by(s, f).to_multiset() =~= f(s[i]).to_multiset().add(
            flat_by(s.remove(i), f).to_multiset(),
        ));
    }
}

/// Law: concatenating per-child result blocks in any processing order
/// yields the same multiset of results. This is why a walk's collected
/// entries form one well-defined set however its branches interleaved.
pub proof fn lemma_flat_by_permutation<A, B>(a: Seq<A>, b: Seq<A>, f: spec_fn(A) -> Seq<B>)
    requires
        a.to_multiset() == b.to_multiset(),
    ensures
        flat_by(a, f).to_multiset() == flat_by(b, f).to_multiset(),
    decreases a.len(),
{
    broadcast use group_to_multiset_ensures;
    broadcast use group_multiset_axioms;

    if a.len() == 0 {
        assert(b.to_multiset().len() == 0);
    } else {
        let x = a[0];
        assert(a.contains(x));
        assert(b.to_multiset().count(x) > 0);
        assert(b.contains(x));
        let j = choose|j: int| 0 <= j < b.len() && b[j] == x;
        assert(a.drop_first() =~= a.remove(0));
        assert(a.remove(0).to_multiset() == a.to_multiset().remove(x));
        assert(b.remove(j).to_multiset() == b.to_multiset().remove(x));
        lemma_flat_by_permutation(a.drop_first(), b.remove(j), f);
        lemma_flat_by_remove(b, f, j);
        lemma_multiset_commutative(f(a[0]), flat_by(a.drop_first(), f));
        assert(flat_by(a, f).to_multiset() =~= flat_by(b, f).to_multiset());
    }
}

} // verus!
