use vstd::prelude::*;

verus! {

/// Whether each long-running part of the worker is still alive.
#[derive(Debug, PartialEq)]
pub struct WorkerHealthStatus {
    pub worker_output_healthy: bool,
    pub task_manager_healthy: bool,
    pub active_trains_healthy: bool,
}

} // verus!
