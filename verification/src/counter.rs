//! Counting the words of one text.

use crate::frequency::FrequencyMap;
use crate::text::{tokenize, tokens_of};
use vstd::multiset::{lemma_multiset_empty_len, Multiset};
use vstd::prelude::*;

verus! {

/// The words of `text` with their numbers of occurrences.
pub open spec fn word_counts(text: Seq<char>) -> Multiset<Seq<char>> {
    tokens_of(text).to_multiset()
}

/// Counts how often each token occurs in `tokens`.
pub fn tally(tokens: &Vec<String>) -> (m: FrequencyMap)
    ensures
        m@ == tokens.deep_view().to_multiset(),
{
    let mut m = FrequencyMap::new();
    let ghost all = tokens.deep_view();
    proof {
        all.take(0).to_multiset_ensures();
        lemma_multiset_empty_len(all.take(0).to_multiset());
    }
    for i in 0..tokens.len()
        invariant
            all == tokens.deep_view(),
            m@ == all.take(i as int).to_multiset(),
    {
        proof {
            all.take(i as int).to_multiset_ensures();
            assert(all.take(i + 1) == all.take(i as int).push(all[i as int]));
        }
        m.record(tokens[i].as_str());
    }
    proof {
        assert(all.take(tokens.len() as int) == all);
    }
    m
}

/// Splits `text` on whitespace and counts each word.
pub fn count_words(text: &str) -> (m: FrequencyMap)
    ensures
        m@ == word_counts(text@),
{
    let tokens = tokenize(text);
    tally(&tokens)
}

} // verus!
