//! Worker-pool sizing: the fixed set of worker threads that serve connection
//! jobs from a shared queue.
//!
//! The pool is sized once at startup and lives for the process lifetime. The
//! threads and the queue they block on are the surrounding program's; the
//! validity rule for the size, and the degraded fallback when configuration
//! hands over an invalid count, live here. The queue is unbounded and there
//! is no draining or shutdown protocol; a slow or silent peer occupies its
//! worker indefinitely — known limitations of this design, not arbitrated
//! here.

use vstd::prelude::*;

verus! {

/// The worker pool could not be built with the requested size.
#[derive(Debug, PartialEq, Eq, Structural, Clone, Copy)]
pub struct PoolError;

/// The fixed size used as a fallback when the configured count is invalid.
pub const FALLBACK_THREAD_COUNT: usize = 3;

/// The plan for a fixed worker pool: how many long-lived worker threads pull
/// jobs from the shared queue. Always at least one.
#[derive(Debug, PartialEq, Eq, Structural, Clone, Copy)]
pub struct WorkerPool {
    pub thread_count: usize,
}

impl WorkerPool {
    /// A pool of exactly `thread_count` workers; zero workers is no pool and
    /// fails, and nothing else does.
    pub fn build(thread_count: usize) -> (r: Result<WorkerPool, PoolError>)
        ensures
            r is Err <==> thread_count == 0,
            r is Ok ==> r->Ok_0.thread_count == thread_count,
            r is Err ==> r->Err_0 == PoolError,
    {
        if thread_count == 0 {
            Err(PoolError)
        } else {
            Ok(WorkerPool { thread_count })
        }
    }

    /// Degraded mode: build with the requested count, or fall back to the
    /// fixed count when it is invalid. The second component reports whether
    /// the fallback was taken.
    pub fn build_or_fallback(thread_count: usize) -> (r: (WorkerPool, bool))
        ensures
            r.0.thread_count >= 1,
            thread_count >= 1 ==> r.0.thread_count == thread_count && !r.1,
            thread_count == 0 ==> r.0.thread_count == FALLBACK_THREAD_COUNT && r.1,
    {
        match WorkerPool::build(thread_count) {
            Ok(pool) => (pool, false),
            Err(_) => (WorkerPool { thread_count: FALLBACK_THREAD_COUNT }, true),
        }
    }
}

} // verus!
