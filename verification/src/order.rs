//! Name-sorted traversal order for the top-level listing: a verified
//! insertion sort over child indices. Only the root listing is sorted; the
//! walk below it owes no order.

use vstd::prelude::*;
use vstd::seq_lib::group_to_multiset_ensures;
use vstd::seq_lib::lemma_multiset_commutative;
use vstd::multiset::group_multiset_axioms;
use crate::model::FsEntry;
use crate::text::{lemma_lex_le_total, lemma_lex_le_trans, lex_le, str_le};

verus! {

/// The children visited through a sequence of indices, in that order.
pub open spec fn reorder(s: Seq<FsEntry>, perm: Seq<usize>) -> Seq<FsEntry> {
    Seq::new(perm.len(), |i: int| s[perm[i] as int])
}

/// Entries stand in codepoint-lexicographic name order.
pub open spec fn sorted_names(s: Seq<FsEntry>) -> bool {
    forall|i: int, j: int|
        #![trigger s[i], s[j]]
        0 <= i < j < s.len() ==> lex_le(s[i].name@, s[j].name@)
}

/// `s.insert` inserts into the multiset.
proof fn lemma_insert_to_multiset(s: Seq<FsEntry>, p: int, x: FsEntry)
    requires
        0 <= p <= s.len(),
    ensures
        s.insert(p, x).to_multiset() == s.to_multiset().insert(x),
{
    broadcast use group_to_multiset_ensures;
    broadcast use group_multiset_axioms;

    let front = s.subrange(0, p);
    let back = s.subrange(p, s.len() as int);
    lemma_multiset_commutative(front.push(x), back);
    lemma_multiset_commutative(front, back);
    assert(front + back =~= s);
    assert(s.insert(p, x).to_multiset() =~= s.to_multiset().insert(x));
}

/// The name-sorted traversal order of a listing: a permutation of the child
/// indices; visiting `children` through it meets the same children, by
/// name in lexicographic order.
#[verifier::loop_isolation(false)]
pub fn sorted_order(children: &Vec<FsEntry>) -> (perm: Vec<usize>)
    ensures
        perm@.len() == children@.len(),
        forall|k: int| 0 <= k < perm@.len() ==> (#[trigger] perm@[k]) < children@.len(),
        sorted_names(reorder(children@, perm@)),
        reorder(children@, perm@).to_multiset() == children@.to_multiset(),
{
    broadcast use group_to_multiset_ensures;

    let n = children.len();
    let mut perm: Vec<usize> = Vec::new();
    let mut i: usize = 0;
    proof {
        assert(reorder(children@, perm@) =~= Seq::<FsEntry>::empty());
        assert(children@.take(0) =~= Seq::<FsEntry>::empty());
    }
    while i < n
        invariant
            i <= n,
            n == children@.len(),
            perm@.len() == i,
            forall|k: int| 0 <= k < perm@.len() ==> (#[trigger] perm@[k]) < n,
            sorted_names(reorder(children@, perm@)),
            reorder(children@, perm@).to_multiset() == children@.take(i as int).to_multiset(),
        decreases n - i,
    {
        let ghost old_perm = perm@;
        let ghost old_r = reorder(children@, old_perm);
        let ghost x = children@[i as int];
        let mut p: usize = 0;
        while p < perm.len() && str_le(children[perm[p]].name.as_str(), children[i].name.as_str())
            invariant
                i < n,
                n == children@.len(),
                perm@ == old_perm,
                perm@.len() == i,
                forall|k: int| 0 <= k < perm@.len() ==> (#[trigger] perm@[k]) < n,
                0 <= p <= perm@.len(),
                forall|k: int| 0 <= k < p ==> lex_le(#[trigger] old_r[k].name@, x.name@),
            decreases perm@.len() - p,
        {
            proof {
                assert(old_r[p as int] == children@[old_perm[p as int] as int]);
            }
            p = p + 1;
        }
        perm.insert(p, i);
        proof {
            assert(perm@ == old_perm.insert(p as int, i));
            old_perm.insert_ensures(p as int, i);
            old_r.insert_ensures(p as int, x);
            let new_r = reorder(children@, perm@);
            assert(new_r =~= old_r.insert(p as int, x));
            if (p as int) < old_r.len() {
                assert(!lex_le(old_r[p as int].name@, x.name@));
                lemma_lex_le_total(old_r[p as int].name@, x.name@);
            }
            assert forall|a: int, b: int|
                #![trigger new_r[a], new_r[b]]
                0 <= a < b < new_r.len() implies lex_le(new_r[a].name@, new_r[b].name@) by {
                if a < p as int {
                    assert(new_r[a] == old_r[a]);
                }
                if b < p as int {
                    assert(new_r[b] == old_r[b]);
                }
                if a > p as int {
                    assert(new_r[a] == old_r[a - 1]);
                }
                if b > p as int {
                    assert(new_r[b] == old_r[b - 1]);
                }
                if a == p as int && b > p as int && b - 1 > p as int {
                    lemma_lex_le_trans(x.name@, old_r[p as int].name@, old_r[b - 1].name@);
                }
            }
            lemma_insert_to_multiset(old_r, p as int, x);
            assert(children@.take(i as int + 1) =~= children@.take(i as int).push(x));
        }
        i = i + 1;
    }
    proof {
        assert(children@.take(n as int) =~= children@);
    }
    perm
}

} // verus!
