use rayon::iter::IntoParallelIterator;
use rayon::iter::ParallelIterator;
use vstd::prelude::*;

verus! {

/// Runs one task and returns what it returned.
fn run_task<F, R>(task: F) -> (r: R)
    where
        F: Fn() -> R,
    requires
        call_requires(task, ()),
    ensures
        call_ensures(task, (), r),
{
    task()
}

/// rayon's `into_par_iter().map(..).collect::<Vec<_>>()` over a vector of
/// tasks: every task runs once, on some worker thread, and the collected
/// vector holds at position `i` what task `i` returned (rayon collects an
/// indexed parallel iterator into a `Vec` in the original order). Which
/// thread runs which task, and when, is not stated.
#[verifier::external_body]
fn par_run_tasks<F, R>(tasks: Vec<F>) -> (results: Vec<R>)
    where
        F: Fn() -> R + Send + Sync,
        R: Send,
    requires
        forall|i: int| 0 <= i < tasks@.len() ==> call_requires(#[trigger] tasks@[i], ()),
    ensures
        results@.len() == tasks@.len(),
        forall|i: int| 0 <= i < tasks@.len() ==> call_ensures(#[trigger] tasks@[i], (), results@[i]),
{
    tasks.into_par_iter().map(|task| run_task(task)).collect()
}

/// Runs all `tasks` in parallel and returns their results in the order of
/// the tasks: the result at `i` is what task `i` returned.
pub fn parallel_execute<F, R>(tasks: Vec<F>) -> (results: Vec<R>)
    where
        F: Fn() -> R + Send + Sync,
        R: Send,
    requires
        forall|i: int| 0 <= i < tasks@.len() ==> call_requires(#[trigger] tasks@[i], ()),
    ensures
        results@.len() == tasks@.len(),
        forall|i: int| 0 <= i < tasks@.len() ==> call_ensures(#[trigger] tasks@[i], (), results@[i]),
{
    par_run_tasks(tasks)
}

} // verus!
