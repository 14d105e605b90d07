//! The decisions of the run: which dispatcher a budget calls for, what a
//! worker does next, what the aggregator does on each poll, and where the
//! progress display stands. The waiting and the I/O around them belong to
//! the caller.

use vstd::prelude::*;
use crate::dispatcher::{
    CountDispatcher, CountView, Dispatcher, DispatcherView, DurationDispatcher, DurationView,
};

verus! {

/// A run needs exactly one budget, and a rate, when given, is not zero.
#[derive(Clone, Copy, Debug, PartialEq, Eq, Structural)]
pub enum BudgetError {
    /// Neither a number of requests nor a duration was given.
    Missing,
    /// Both a number of requests and a duration were given.
    Conflicting,
    /// A rate of zero requests per second was given.
    ZeroRate,
}

/// The dispatcher for a budget of `requests` or of `duration` nanoseconds
/// from `now`, with the given rate ceiling.
pub fn create_dispatcher(
    requests: Option<u64>,
    duration: Option<u64>,
    rate: Option<u16>,
    now: u64,
) -> (r: Result<Dispatcher, BudgetError>)
    ensures
        requests is Some && duration is Some ==> r == Err::<Dispatcher, BudgetError>(
            BudgetError::Conflicting,
        ),
        requests is None && duration is None ==> r == Err::<Dispatcher, BudgetError>(
            BudgetError::Missing,
        ),
        requests is Some != duration is Some && rate == Some(0u16) ==> r == Err::<
            Dispatcher,
            BudgetError,
        >(BudgetError::ZeroRate),
        requests is Some && duration is None && rate != Some(0u16) ==> r is Ok && r->Ok_0@
            == DispatcherView::Count(
            CountView {
                total: requests->0,
                applied: 0,
                completed: 0,
                canceled: false,
                done: false,
                rate,
            },
        ),
        requests is None && duration is Some && rate != Some(0u16) ==> r is Ok && r->Ok_0@
            == DispatcherView::Duration(
            DurationView {
                start: now,
                duration: duration->0,
                total: 0,
                canceled: false,
                canceled_at: None,
                done: false,
                rate,
            },
        ),
        r matches Ok(d) ==> d@.wf(),
{
    match (requests, duration) {
        (Some(_), Some(_)) => Err(BudgetError::Conflicting),
        (None, None) => Err(BudgetError::Missing),
        (Some(n), None) => {
            if rate == Some(0u16) {
                return Err(BudgetError::ZeroRate);
            }
            Ok(Dispatcher::Count(CountDispatcher::new(n, rate)))
        },
        (None, Some(d)) => {
            if rate == Some(0u16) {
                return Err(BudgetError::ZeroRate);
            }
            Ok(Dispatcher::Duration(DurationDispatcher::new(d, rate, now)))
        },
    }
}

/// Where a worker stands in its loop.
#[derive(Clone, Copy, Debug, PartialEq, Eq, Structural)]
pub enum WorkerStep {
    /// Asking the dispatcher for a job.
    Admit,
    /// Building the request of the job.
    Build,
    /// Sending the request and marking the job complete.
    Execute,
    /// Handing the outcome to the aggregator.
    Report,
    /// Done: no more jobs, or no one left to report to.
    Exit,
    /// Stopped the run: a request could not be built.
    Abort,
}

/// The step after `step` went well (`ok`) or not: no admission ends the
/// worker, a request that cannot be built aborts the run, a transport error
/// is reported like any outcome, and a report that finds the aggregator gone
/// ends the worker.
pub open spec fn next_step(step: WorkerStep, ok: bool) -> WorkerStep {
    match step {
        WorkerStep::Admit => if ok {
            WorkerStep::Build
        } else {
            WorkerStep::Exit
        },
        WorkerStep::Build => if ok {
            WorkerStep::Execute
        } else {
            WorkerStep::Abort
        },
        WorkerStep::Execute => WorkerStep::Report,
        WorkerStep::Report => if ok {
            WorkerStep::Admit
        } else {
            WorkerStep::Exit
        },
        WorkerStep::Exit => WorkerStep::Exit,
        WorkerStep::Abort => WorkerStep::Abort,
    }
}

/// The step after `step`.
pub fn worker_next(step: WorkerStep, ok: bool) -> (r: WorkerStep)
    ensures
        r == next_step(step, ok),
{
    match step {
        WorkerStep::Admit => if ok {
            WorkerStep::Build
        } else {
            WorkerStep::Exit
        },
        WorkerStep::Build => if ok {
            WorkerStep::Execute
        } else {
            WorkerStep::Abort
        },
        WorkerStep::Execute => WorkerStep::Report,
        WorkerStep::Report => if ok {
            WorkerStep::Admit
        } else {
            WorkerStep::Exit
        },
        WorkerStep::Exit => WorkerStep::Exit,
        WorkerStep::Abort => WorkerStep::Abort,
    }
}

/// What the aggregator does after one poll of the outcome channel.
#[derive(Clone, Copy, Debug, PartialEq, Eq, Structural)]
pub enum AggregatorAction {
    /// Fold the outcome received, then poll again.
    Fold,
    /// Nothing came and the workers are done: stop.
    Finish,
    /// Nothing came yet: pause briefly, then poll again.
    Wait,
}

/// The aggregator's action after a poll that `received` an outcome or not,
/// with the workers done or not. It stops only once nothing is left.
pub fn aggregator_step(received: bool, workers_done: bool) -> (r: AggregatorAction)
    ensures
        received ==> r == AggregatorAction::Fold,
        !received && workers_done ==> r == AggregatorAction::Finish,
        !received && !workers_done ==> r == AggregatorAction::Wait,
{
    if received {
        AggregatorAction::Fold
    } else if workers_done {
        AggregatorAction::Finish
    } else {
        AggregatorAction::Wait
    }
}

/// The position of the progress display under a count budget: the outcomes
/// so far, up to the budget.
pub fn count_position(outcomes: u64, budget: u64) -> (r: u64)
    ensures
        r == if outcomes < budget {
            outcomes
        } else {
            budget
        },
{
    if outcomes < budget {
        outcomes
    } else {
        budget
    }
}

/// The position of the progress display under a time budget: the seconds
/// elapsed, up to the budget's seconds.
pub fn duration_position(elapsed_secs: u64, budget_secs: u64) -> (r: u64)
    ensures
        r == if elapsed_secs < budget_secs {
            elapsed_secs
        } else {
            budget_secs
        },
{
    if elapsed_secs < budget_secs {
        elapsed_secs
    } else {
        budget_secs
    }
}

} // verus!
