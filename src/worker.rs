use vstd::prelude::*;

verus! {

/// What the accounts hash worker learned last.
#[derive(Clone, Copy, Debug, PartialEq, Eq, Structural)]
pub enum WorkerEvent {
    /// A new round of the loop begins.
    RoundStarted,
    /// The channel held no accounts package.
    NoAccountsPackage,
    /// An accounts package was taken from the channel.
    AccountsPackageTaken,
    /// The accounts package taken was handled.
    AccountsPackageHandled,
    /// Handling the accounts package failed.
    AccountsPackageFailed,
}

/// What the accounts hash worker does next.
#[derive(Clone, Copy, Debug, PartialEq, Eq, Structural)]
pub enum WorkerAction {
    /// Leave the loop.
    Stop,
    /// Take the next accounts package from the channel.
    TakeAccountsPackage,
    /// Wait for one slot, then begin a new round.
    WaitOneSlot,
    /// Hash, curate and hand on the accounts package taken.
    HandleAccountsPackage,
    /// Report the round's measurements, then begin a new round.
    ReportMetrics,
    /// Ask the whole process to stop, then leave the loop.
    SignalExitAndStop,
}

/// The next action of the worker, given whether exit was asked for and what
/// it learned last. Exit is looked at when a round begins; a failure to
/// handle a package stops the process.
pub open spec fn next_action(exit_requested: bool, event: WorkerEvent) -> WorkerAction {
    match event {
        WorkerEvent::RoundStarted => if exit_requested {
            WorkerAction::Stop
        } else {
            WorkerAction::TakeAccountsPackage
        },
        WorkerEvent::NoAccountsPackage => WorkerAction::WaitOneSlot,
        WorkerEvent::AccountsPackageTaken => WorkerAction::HandleAccountsPackage,
        WorkerEvent::AccountsPackageHandled => WorkerAction::ReportMetrics,
        WorkerEvent::AccountsPackageFailed => WorkerAction::SignalExitAndStop,
    }
}

/// Decides the next action of the accounts hash worker.
pub fn next_worker_action(exit_requested: bool, event: WorkerEvent) -> (r: WorkerAction)
    ensures
        r == next_action(exit_requested, event),
{
    match event {
        WorkerEvent::RoundStarted => if exit_requested {
            WorkerAction::Stop
        } else {
            WorkerAction::TakeAccountsPackage
        },
        WorkerEvent::NoAccountsPackage => WorkerAction::WaitOneSlot,
        WorkerEvent::AccountsPackageTaken => WorkerAction::HandleAccountsPackage,
        WorkerEvent::AccountsPackageHandled => WorkerAction::ReportMetrics,
        WorkerEvent::AccountsPackageFailed => WorkerAction::SignalExitAndStop,
    }
}

} // verus!
