//! What holds of the library as a whole.

use crate::counter::word_counts;
use crate::document::{Document, DocumentReadFailure};
use crate::frequency::FrequencyMap;
use crate::merger::{lemma_merge_commutative, lemma_sum_of_concat};
use crate::pipeline::{pipeline_outcome, PipelineError};
use crate::strategy::{corpus_counts, counts_of_each, expected, outcome};
use crate::text::tokens_of;
use vstd::multiset::lemma_multiset_empty_len;
use vstd::prelude::*;
use vstd::seq_lib::lemma_multiset_commutative;

verus! {

/// Every token of every text, text after text.
pub open spec fn corpus_tokens(texts: Seq<Seq<char>>) -> Seq<Seq<char>>
    decreases texts.len(),
{
    if texts.len() == 0 {
        Seq::empty()
    } else {
        corpus_tokens(texts.drop_last()) + tokens_of(texts.last())
    }
}

/// The same text always has the same tokens, and the empty text has none.
pub proof fn lemma_tokenization_deterministic(
    text: Seq<char>,
    first: Seq<Seq<char>>,
    second: Seq<Seq<char>>,
)
    requires
        first == tokens_of(text),
        second == tokens_of(text),
    ensures
        first == second,
        tokens_of(Seq::<char>::empty()) == Seq::<Seq<char>>::empty(),
{
}

/// The counts of a corpus give each word the number of its occurrences
/// among all tokens of all texts.
pub proof fn lemma_corpus_counts_are_token_counts(texts: Seq<Seq<char>>)
    ensures
        corpus_counts(texts) == corpus_tokens(texts).to_multiset(),
    decreases texts.len(),
{
    let parts = counts_of_each(texts);
    if texts.len() == 0 {
        corpus_tokens(texts).to_multiset_ensures();
        lemma_multiset_empty_len(corpus_tokens(texts).to_multiset());
    } else {
        let head = texts.drop_last();
        lemma_corpus_counts_are_token_counts(head);
        assert(parts.drop_last() == counts_of_each(head));
        assert(parts.last() == word_counts(texts.last()));
        lemma_multiset_commutative(corpus_tokens(head), tokens_of(texts.last()));
    }
}

/// The counts of a corpus that is split in two are the merged counts of its
/// two parts, whichever part comes first.
pub proof fn lemma_corpus_counts_split(left: Seq<Seq<char>>, right: Seq<Seq<char>>)
    ensures
        corpus_counts(left + right) == corpus_counts(left).add(corpus_counts(right)),
        corpus_counts(left + right) == corpus_counts(right + left),
{
    assert(counts_of_each(left + right) == counts_of_each(left) + counts_of_each(right));
    assert(counts_of_each(right + left) == counts_of_each(right) + counts_of_each(left));
    lemma_sum_of_concat(counts_of_each(left), counts_of_each(right));
    lemma_sum_of_concat(counts_of_each(right), counts_of_each(left));
    lemma_merge_commutative(corpus_counts(left), corpus_counts(right));
}

/// The three strategies agree: on the same documents they return tables with
/// the same words and the same counts, or fail on the same document.
pub proof fn lemma_strategies_agree(
    docs: Seq<Document>,
    sequential: Result<FrequencyMap, DocumentReadFailure>,
    parallel: Result<FrequencyMap, DocumentReadFailure>,
    pipeline: Result<FrequencyMap, PipelineError>,
)
    requires
        outcome(sequential) == expected(docs),
        outcome(parallel) == expected(docs),
        pipeline_outcome(pipeline) == Some(expected(docs)),
    ensures
        outcome(sequential) == outcome(parallel),
        pipeline_outcome(pipeline) == Some(outcome(sequential)),
        sequential is Ok ==> parallel is Ok && pipeline is Ok && sequential->Ok_0@.dom()
            == parallel->Ok_0@.dom() && sequential->Ok_0@.dom() == pipeline->Ok_0@.dom(),
{
}

/// Two runs of the pipeline on the same documents are independent of each
/// other: both return what the documents call for, and neither ends in a
/// protocol violation.
pub proof fn lemma_pipeline_single_shot(
    docs: Seq<Document>,
    first: Result<FrequencyMap, PipelineError>,
    second: Result<FrequencyMap, PipelineError>,
)
    requires
        pipeline_outcome(first) == Some(expected(docs)),
        pipeline_outcome(second) == Some(expected(docs)),
    ensures
        pipeline_outcome(first) == pipeline_outcome(second),
        !(first matches Err(PipelineError::ProtocolViolation(_))),
        !(second matches Err(PipelineError::ProtocolViolation(_))),
{
}

} // verus!
