//! Fork/join building blocks on the worker pool.

use crate::frequency::{representable, FrequencyMap};
use crate::merger::{merge, sum_of};
use rayon::iter::{IntoParallelIterator, ParallelIterator};
use rayon::{ThreadPool, ThreadPoolBuildError, ThreadPoolBuilder};
use vstd::prelude::*;

verus! {

/// A worker pool of rayon.
#[verifier::external_type_specification]
#[verifier::external_body]
pub struct ExThreadPool(rayon::ThreadPool);

/// The reason why rayon could not start a worker pool.
#[verifier::external_type_specification]
#[verifier::external_body]
pub struct ExThreadPoolBuildError(rayon::ThreadPoolBuildError);

/// Starts a worker pool of at most `size` threads, or of as many threads as
/// rayon chooses where `size` is 0.
///
/// Calls rayon's `ThreadPoolBuilder::new`, `num_threads` and `build`. Whether
/// the pool can be started depends on the machine, so nothing is claimed of
/// the result.
#[verifier::external_body]
pub(crate) fn build_pool(size: usize) -> Result<ThreadPool, ThreadPoolBuildError> {
    ThreadPoolBuilder::new().num_threads(size).build()
}

/// `ThreadPool::install` runs `op` once, with `pool` as the pool on which the
/// parallel iterators inside `op` work, and hands back what `op` returned.
pub assume_specification<OP, R>[ ThreadPool::install::<OP, R> ](pool: &ThreadPool, op: OP) -> (r:
    R) where OP: FnOnce() -> R + Send, R: Send
    requires
        call_requires(op, ()),
    ensures
        call_ensures(op, (), r),
;

/// Applies `f` to every item, one task per item on the worker pool, and
/// collects the results in the order of the items.
///
/// Calls rayon's `into_par_iter`, `map` and `collect`. Taken on trust: that
/// `f` is called on the items of `items` and on nothing else, and that the
/// vector which `collect` builds holds the result for item `i` at position
/// `i`.
#[verifier::external_body]
pub(crate) fn par_map<T, U, F>(items: Vec<T>, f: F) -> (out: Vec<U>) where
    T: Send,
    U: Send,
    F: Fn(T) -> U + Sync + Send,

    requires
        forall|i: int| 0 <= i < items.len() ==> call_requires(f, (#[trigger] items[i],)),
    ensures
        out.len() == items.len(),
        forall|i: int| 0 <= i < items.len() ==> call_ensures(f, (items[i],), #[trigger] out[i]),
{
    items.into_par_iter().map(f).collect()
}

/// Reduces `parts` to their sum by pairwise merging on the worker pool.
///
/// Calls rayon's `into_par_iter` and `reduce`, with the empty table as the
/// identity and `merge` as the operation. Taken on trust: that `reduce`
/// merges every part exactly once, in some grouping of its own choice, with
/// empty tables put in where it likes. As merging is associative and the
/// empty table is its identity, every such grouping yields the sum, and no
/// intermediate table counts a word more often than the sum does.
#[verifier::external_body]
pub(crate) fn par_merge(parts: Vec<FrequencyMap>) -> (total: FrequencyMap)
    requires
        representable(sum_of(parts.deep_view())),
    ensures
        total@ == sum_of(parts.deep_view()),
{
    parts.into_par_iter().reduce(|| FrequencyMap::new(), |a, b| merge(a, b))
}

} // verus!
