//! The background worker's decisions: it runs a piece of work, rests, and runs it
//! again, until it is cancelled, the work fails, or the work says it has stopped.

use vstd::prelude::*;

verus! {

/// What a piece of work says of itself when it finishes.
#[allow(non_camel_case_types)]
#[derive(Debug, Clone, Copy, PartialEq, Eq, Structural)]
pub enum WorkState {
    ACTIVE,
    STOPPED,
}

/// What the worker learns.
#[derive(Debug, Clone, Copy, PartialEq, Eq, Structural)]
pub enum WorkerEvent {
    /// The worker was started.
    Started,
    /// The work finished and said this of itself.
    WorkFinished(WorkState),
    /// The work failed.
    WorkFailed,
    /// The rest between two runs is over.
    RestOver,
    /// The worker was cancelled.
    Cancelled,
}

/// What the worker does next.
#[derive(Debug, Clone, Copy, PartialEq, Eq, Structural)]
pub enum WorkerAction {
    /// Run the work.
    Work,
    /// Rest for the worker's interval.
    Rest,
    /// Report the failure and stop.
    Fail,
    /// Stop.
    Stop,
}

/// What the worker does after `event`: cancelling stops it; a failure is reported and
/// stops it; a run whose work says `STOPPED` stops it, and one whose work says `ACTIVE`
/// is followed by a rest; the start and the end of a rest are followed by a run.
pub open spec fn worker_decision(event: WorkerEvent) -> WorkerAction {
    match event {
        WorkerEvent::Started => WorkerAction::Work,
        WorkerEvent::WorkFinished(WorkState::ACTIVE) => WorkerAction::Rest,
        WorkerEvent::WorkFinished(WorkState::STOPPED) => WorkerAction::Stop,
        WorkerEvent::WorkFailed => WorkerAction::Fail,
        WorkerEvent::RestOver => WorkerAction::Work,
        WorkerEvent::Cancelled => WorkerAction::Stop,
    }
}

/// The worker's loop runs the work only right after it starts or after a rest, rests
/// only after a run whose work says `ACTIVE`, and ends (stops, or reports a failure and
/// stops) after cancelling, a failure, or a run whose work says `STOPPED`.
pub proof fn law_worker_loop(event: WorkerEvent)
    ensures
        worker_decision(event) == WorkerAction::Work <==> (event == WorkerEvent::Started || event
            == WorkerEvent::RestOver),
        worker_decision(event) == WorkerAction::Rest <==> event == WorkerEvent::WorkFinished(
            WorkState::ACTIVE,
        ),
        (worker_decision(event) == WorkerAction::Stop || worker_decision(event) == WorkerAction::Fail)
            <==> (event == WorkerEvent::Cancelled || event == WorkerEvent::WorkFailed || event
            == WorkerEvent::WorkFinished(WorkState::STOPPED)),
{
}

/// What the worker does after `event`: see `worker_decision`.
pub fn next_action(event: WorkerEvent) -> (action: WorkerAction)
    ensures
        action == worker_decision(event),
{
    match event {
        WorkerEvent::Started => WorkerAction::Work,
        WorkerEvent::WorkFinished(WorkState::ACTIVE) => WorkerAction::Rest,
        WorkerEvent::WorkFinished(WorkState::STOPPED) => WorkerAction::Stop,
        WorkerEvent::WorkFailed => WorkerAction::Fail,
        WorkerEvent::RestOver => WorkerAction::Work,
        WorkerEvent::Cancelled => WorkerAction::Stop,
    }
}

} // verus!
