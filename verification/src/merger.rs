//! Combining frequency tables: the key-wise sum and its laws.

use crate::frequency::{representable, FrequencyMap};
use vstd::multiset::Multiset;
use vstd::prelude::*;

verus! {

/// The sum of `parts`, taken from left to right.
pub open spec fn sum_of(parts: Seq<Multiset<Seq<char>>>) -> Multiset<Seq<char>>
    decreases parts.len(),
{
    if parts.len() == 0 {
        Multiset::empty()
    } else {
        sum_of(parts.drop_last()).add(parts.last())
    }
}

/// The key-wise sum of two tables: a word absent from one of them
/// contributes 0 there.
pub fn merge(a: FrequencyMap, b: FrequencyMap) -> (m: FrequencyMap)
    requires
        representable(a@.add(b@)),
    ensures
        m@ == a@.add(b@),
{
    let mut m = a;
    m.absorb(&b);
    m
}

/// Folds `parts` into one table, from left to right.
pub fn merge_all(parts: Vec<FrequencyMap>) -> (m: FrequencyMap)
    requires
        representable(sum_of(parts.deep_view())),
    ensures
        m@ == sum_of(parts.deep_view()),
{
    let ghost views = parts.deep_view();
    let mut m = FrequencyMap::new();
    for part in it: parts
        invariant
            it.seq() == parts@,
            views == parts.deep_view(),
            representable(sum_of(views)),
            m@ == sum_of(views.take(it.index() as int)),
    {
        let ghost i = it.index() as int;
        proof {
            assert(views.take(i + 1).drop_last() == views.take(i));
            lemma_sum_of_prefix(views, i + 1);
        }
        m.absorb(&part);
    }
    proof {
        assert(views.take(parts.len() as int) == views);
    }
    m
}

/// Merging is commutative.
pub proof fn lemma_merge_commutative(a: Multiset<Seq<char>>, b: Multiset<Seq<char>>)
    ensures
        a.add(b) == b.add(a),
{
    assert(a.add(b) =~= b.add(a));
}

/// Merging is associative.
pub proof fn lemma_merge_associative(
    a: Multiset<Seq<char>>,
    b: Multiset<Seq<char>>,
    c: Multiset<Seq<char>>,
)
    ensures
        a.add(b).add(c) == a.add(b.add(c)),
{
    assert(a.add(b).add(c) =~= a.add(b.add(c)));
}

/// The empty table is the identity of merging, on either side.
pub proof fn lemma_merge_identity(a: Multiset<Seq<char>>)
    ensures
        a.add(Multiset::empty()) == a,
        Multiset::empty().add(a) == a,
{
    assert(a.add(Multiset::empty()) =~= a);
    assert(Multiset::empty().add(a) =~= a);
}

/// Summing two groups separately and merging the two sums gives the sum of
/// the whole.
pub proof fn lemma_sum_of_concat(left: Seq<Multiset<Seq<char>>>, right: Seq<Multiset<Seq<char>>>)
    ensures
        sum_of(left + right) == sum_of(left).add(sum_of(right)),
    decreases right.len(),
{
    if right.len() == 0 {
        assert(left + right == left);
        lemma_merge_identity(sum_of(left));
    } else {
        assert((left + right).drop_last() == left + right.drop_last());
        lemma_sum_of_concat(left, right.drop_last());
        lemma_merge_associative(sum_of(left), sum_of(right.drop_last()), right.last());
    }
}

/// No word is counted more often in the sum of a prefix than in the whole sum.
pub proof fn lemma_sum_of_prefix(parts: Seq<Multiset<Seq<char>>>, n: int)
    requires
        0 <= n <= parts.len(),
    ensures
        sum_of(parts.take(n)).subset_of(sum_of(parts)),
{
    assert(parts == parts.take(n) + parts.skip(n));
    lemma_sum_of_concat(parts.take(n), parts.skip(n));
}

} // verus!
