//! The single-threaded baseline and the fork/join strategy.

use crate::counter::{count_words, word_counts};
use crate::document::{
    all_readable, collect_texts, first_unreadable, texts_of, Document, DocumentReadFailure,
};
use crate::frequency::{representable, FrequencyMap};
use crate::merger::{lemma_sum_of_prefix, sum_of};
use crate::parallel::{build_pool, par_map, par_merge};
use rayon::{ThreadPool, ThreadPoolBuildError};
use vstd::multiset::Multiset;
use vstd::prelude::*;

verus! {

/// The word counts of each text, in the order of the texts.
pub open spec fn counts_of_each(texts: Seq<Seq<char>>) -> Seq<Multiset<Seq<char>>> {
    Seq::new(texts.len(), |i: int| word_counts(texts[i]))
}

/// The word counts of a whole corpus: for each word, the number of its
/// occurrences across all texts.
pub open spec fn corpus_counts(texts: Seq<Seq<char>>) -> Multiset<Seq<char>> {
    sum_of(counts_of_each(texts))
}

/// What a run over `docs` owes: the counts of the corpus, or the path of the
/// first document that could not be read.
pub open spec fn expected(docs: Seq<Document>) -> Result<Multiset<Seq<char>>, Seq<char>> {
    if all_readable(docs) {
        Ok(corpus_counts(texts_of(docs)))
    } else {
        Err(docs[first_unreadable(docs)].path@)
    }
}

/// Whether the counts of `docs`, where all of them were read, fit the
/// counters.
pub open spec fn countable(docs: Seq<Document>) -> bool {
    all_readable(docs) ==> representable(corpus_counts(texts_of(docs)))
}

/// What a run returned, as plain values.
pub open spec fn outcome(r: Result<FrequencyMap, DocumentReadFailure>) -> Result<
    Multiset<Seq<char>>,
    Seq<char>,
> {
    match r {
        Ok(m) => Ok(m@),
        Err(e) => Err(e.path@),
    }
}

/// Counts the words of `texts` one text after the other, merging the counts
/// of each text into one running table.
pub fn count_in_sequence(texts: &Vec<String>) -> (m: FrequencyMap)
    requires
        representable(corpus_counts(texts.deep_view())),
    ensures
        m@ == corpus_counts(texts.deep_view()),
{
    let ghost parts = counts_of_each(texts.deep_view());
    let mut m = FrequencyMap::new();
    for i in 0..texts.len()
        invariant
            parts == counts_of_each(texts.deep_view()),
            representable(sum_of(parts)),
            m@ == sum_of(parts.take(i as int)),
    {
        let local = count_words(texts[i].as_str());
        proof {
            assert(parts.take(i + 1).drop_last() == parts.take(i as int));
            lemma_sum_of_prefix(parts, i + 1);
        }
        m.absorb(&local);
    }
    proof {
        assert(parts.take(texts.len() as int) == parts);
    }
    m
}

/// Counts the words of each text in a task of its own and reduces the
/// partial tables to one.
pub fn count_in_parallel(texts: Vec<String>) -> (m: FrequencyMap)
    requires
        representable(corpus_counts(texts.deep_view())),
    ensures
        m@ == corpus_counts(texts.deep_view()),
{
    let count = |text: String| -> (part: FrequencyMap)
        ensures
            part@ == word_counts(text@),
        {
            count_words(text.as_str())
        };
    let parts = par_map(texts, count);
    proof {
        assert(parts.deep_view() == counts_of_each(texts.deep_view()));
    }
    par_merge(parts)
}

/// Why a run on a worker pool of its own failed.
#[derive(Clone, Debug, PartialEq, Eq)]
pub enum ParallelError {
    /// A document could not be read.
    DocumentReadFailure(DocumentReadFailure),
    /// The worker pool could not be started.
    PoolUnavailable,
}

/// What a run on a worker pool of its own returned, as plain values: `None`
/// where the pool could not be started.
pub open spec fn pooled_outcome(r: Result<FrequencyMap, ParallelError>) -> Option<
    Result<Multiset<Seq<char>>, Seq<char>>,
> {
    match r {
        Ok(m) => Some(Ok(m@)),
        Err(ParallelError::DocumentReadFailure(e)) => Some(Err(e.path@)),
        Err(ParallelError::PoolUnavailable) => None,
    }
}

/// Counts the words of `texts` by fork and join on `pool`, where there is
/// one.
pub fn count_on_pool(pool: Result<ThreadPool, ThreadPoolBuildError>, texts: Vec<String>) -> (r:
    Result<FrequencyMap, ParallelError>)
    requires
        representable(corpus_counts(texts.deep_view())),
    ensures
        match r {
            Ok(m) => pool is Ok && m@ == corpus_counts(texts.deep_view()),
            Err(e) => pool is Err && e == ParallelError::PoolUnavailable,
        },
{
    match pool {
        Ok(pool) => {
            let run = move || -> (m: FrequencyMap)
                requires
                    representable(corpus_counts(texts.deep_view())),
                ensures
                    m@ == corpus_counts(texts.deep_view()),
                {
                    count_in_parallel(texts)
                };
            Ok(pool.install(run))
        },
        Err(_) => Err(ParallelError::PoolUnavailable),
    }
}

/// The single-threaded strategy.
pub fn squential(docs: Vec<Document>) -> (r: Result<FrequencyMap, DocumentReadFailure>)
    requires
        countable(docs@),
    ensures
        outcome(r) == expected(docs@),
{
    match collect_texts(docs) {
        Ok(texts) => Ok(count_in_sequence(&texts)),
        Err(e) => Err(e),
    }
}

/// The fork/join strategy.
pub fn parallelism(docs: Vec<Document>) -> (r: Result<FrequencyMap, DocumentReadFailure>)
    requires
        countable(docs@),
    ensures
        outcome(r) == expected(docs@),
{
    match collect_texts(docs) {
        Ok(texts) => Ok(count_in_parallel(texts)),
        Err(e) => Err(e),
    }
}

/// The fork/join strategy on a worker pool of its own, of at most `pool_size`
/// threads; with `pool_size` 0 the pool is as large as the machine suggests.
/// The pool is started only once every document is known to be readable.
pub fn parallelism_with_pool(docs: Vec<Document>, pool_size: usize) -> (r: Result<
    FrequencyMap,
    ParallelError,
>)
    requires
        countable(docs@),
    ensures
        match pooled_outcome(r) {
            Some(o) => o == expected(docs@),
            None => all_readable(docs@),
        },
{
    match collect_texts(docs) {
        Ok(texts) => count_on_pool(build_pool(pool_size), texts),
        Err(e) => Err(ParallelError::DocumentReadFailure(e)),
    }
}

} // verus!
