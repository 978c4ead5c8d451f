//! The rules of an elastic worker pool: when to start a worker, how long an
//! idle worker waits, and when it retires. The pool itself, with its threads
//! and its queue, is the caller's.

use vstd::prelude::*;

verus! {

/// What to do with a new job.
#[derive(Clone, Copy, Debug, PartialEq, Eq, Structural)]
pub enum Dispatch {
    /// Start a worker that begins with the job.
    Spawn,
    /// Put the job in the queue and wake one worker.
    Enqueue,
}

/// How an idle worker waits for a job.
#[derive(Clone, Copy, Debug, PartialEq, Eq, Structural)]
pub enum Wait {
    /// Until it is woken.
    Indefinitely,
    /// Until it is woken or the pool's timeout has passed.
    Timed,
}

/// A new job starts a worker only when no worker is idle and the pool is
/// below its largest size; otherwise the job is queued.
pub open spec fn dispatch_rule(idle: usize, active: usize, max: usize) -> Dispatch {
    if idle == 0 && active < max {
        Dispatch::Spawn
    } else {
        Dispatch::Enqueue
    }
}

/// While the pool is no larger than its smallest size a worker waits for
/// ever; a worker beyond that size waits with the timeout.
pub open spec fn wait_rule(active: usize, min: usize) -> Wait {
    if active <= min {
        Wait::Indefinitely
    } else {
        Wait::Timed
    }
}

/// What to do with a new job, by [`dispatch_rule`].
pub fn dispatch(idle: usize, active: usize, max: usize) -> (d: Dispatch)
    ensures
        d == dispatch_rule(idle, active, max),
{
    if idle == 0 && active < max {
        Dispatch::Spawn
    } else {
        Dispatch::Enqueue
    }
}

/// How an idle worker waits, by [`wait_rule`].
pub fn wait_mode(active: usize, min: usize) -> (w: Wait)
    ensures
        w == wait_rule(active, min),
{
    if active <= min {
        Wait::Indefinitely
    } else {
        Wait::Timed
    }
}

/// A worker retires when its timed wait ran out and the queue is still empty.
pub fn retires(timed_out: bool, queue_empty: bool) -> (yes: bool)
    ensures
        yes == (timed_out && queue_empty),
{
    timed_out && queue_empty
}

/// The count that a pool puts in the place of its number of workers when it
/// closes: half of the largest count there is.
pub fn closing_count() -> (n: usize)
    ensures
        n == usize::MAX / 2,
{
    usize::MAX / 2
}

/// A closing pool winds down. Under the closing count no job starts a worker
/// in a pool of at most that size, and every idle worker of a pool whose
/// smallest size is below it waits with the timeout, after which it retires
/// if the queue is empty.
pub proof fn law_closing_pool_winds_down(idle: usize, min: usize, max: usize)
    requires
        min < usize::MAX / 2,
        max <= usize::MAX / 2,
    ensures
        dispatch_rule(idle, (usize::MAX / 2) as usize, max) == Dispatch::Enqueue,
        wait_rule((usize::MAX / 2) as usize, min) == Wait::Timed,
{
}

} // verus!
