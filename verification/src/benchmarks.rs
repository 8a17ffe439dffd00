use std::time::Duration;
use vstd::prelude::*;

verus! {

/// What a run of tasks on a pool measured: the pool's name, the time the
/// run took, how many tasks completed, and the time per task.
#[derive(Debug)]
pub struct PoolBenchmarkResult {
    pub name: String,
    pub total_time: Duration,
    pub tasks_completed: usize,
    pub avg_task_time: Duration,
}

} // verus!
