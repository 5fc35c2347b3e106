//! The decisions of the payment watcher.
//!
//! The watcher is a loop around outside work: it sleeps, asks the store to expire
//! overdue invoices and to hand over a batch of sent ones, and checks each invoice
//! of the batch against the chain, pausing between checks. The loop itself lives
//! with the caller. Here is what it decides: given where it stands and what just
//! happened, where it stands next and what to do.

use vstd::prelude::*;

verus! {

/// Milliseconds between two cycles.
pub const CYCLE_INTERVAL_MS: u64 = 60_000;

/// Milliseconds between two checks of one cycle.
pub const CHECK_DELAY_MS: u64 = 500;

/// Most invoices checked in one cycle.
pub const BATCH_LIMIT: usize = 10;

/// Where the watcher stands.
#[derive(Clone, Copy, Debug, PartialEq, Eq, Structural)]
pub enum WatcherState {
    /// Sleeping until the next cycle.
    Waiting,
    /// The store was asked to expire overdue invoices and for a batch.
    Fetching,
    /// Invoice `index` of a batch of `count` is being checked.
    Checking { index: usize, count: usize },
    /// Sleeping after the check of invoice `index` of a batch of `count`.
    Pausing { index: usize, count: usize },
    /// Cancelled; nothing more happens.
    Stopped,
}

/// How the check of one invoice ended.
#[derive(Clone, Copy, Debug, PartialEq, Eq, Structural)]
pub enum CheckOutcome {
    /// A payment was detected.
    Detected,
    /// No payment yet.
    NotDetected,
    /// The chain source or the store failed.
    Failed,
}

/// What just happened.
#[derive(Clone, Copy, Debug, PartialEq, Eq, Structural)]
pub enum WatcherEvent {
    /// The sleep asked for is over.
    Tick,
    /// The store handed over a batch of `count` invoices.
    Batch { count: usize },
    /// The store failed.
    BatchFailed,
    /// The check asked for has ended.
    Checked { outcome: CheckOutcome },
    /// The watcher is to stop.
    Cancel,
}

/// What to do next.
#[derive(Clone, Copy, Debug, PartialEq, Eq, Structural)]
pub enum WatcherAction {
    /// Sleep, then report `Tick`.
    Sleep { millis: u64 },
    /// Expire overdue invoices, fetch at most `limit` sent ones, then report `Batch`
    /// or `BatchFailed`.
    ExpireAndFetch { limit: usize },
    /// Check invoice `index` of the batch, then report `Checked`.
    Check { index: usize },
    /// Leave the loop.
    Stop,
    /// Go on waiting for what was asked before.
    Nothing,
}

/// Whether a state can occur: a batch has at most `BATCH_LIMIT` invoices and the
/// one in hand is one of them.
pub open spec fn state_valid(state: WatcherState) -> bool {
    match state {
        WatcherState::Checking { index, count } => index < count <= BATCH_LIMIT,
        WatcherState::Pausing { index, count } => index < count <= BATCH_LIMIT,
        _ => true,
    }
}

/// The watcher's next state and action.
///
/// `Cancel` stops it from any state. A cycle starts when the long sleep ends. A store
/// failure or an empty batch ends the cycle. Of a batch, at most `BATCH_LIMIT`
/// invoices are checked, in order, with a pause after each; however a check ends, the
/// next follows. An event that the state does not wait for changes nothing.
pub open spec fn step_spec(state: WatcherState, event: WatcherEvent) -> (WatcherState, WatcherAction) {
    let next_cycle = (WatcherState::Waiting, WatcherAction::Sleep { millis: CYCLE_INTERVAL_MS });
    match (state, event) {
        (_, WatcherEvent::Cancel) => (WatcherState::Stopped, WatcherAction::Stop),
        (WatcherState::Stopped, _) => (WatcherState::Stopped, WatcherAction::Stop),
        (WatcherState::Waiting, WatcherEvent::Tick) => (
            WatcherState::Fetching,
            WatcherAction::ExpireAndFetch { limit: BATCH_LIMIT },
        ),
        (WatcherState::Fetching, WatcherEvent::BatchFailed) => next_cycle,
        (WatcherState::Fetching, WatcherEvent::Batch { count }) => if count == 0 {
            next_cycle
        } else {
            (
                WatcherState::Checking {
                    index: 0,
                    count: if count > BATCH_LIMIT {
                        BATCH_LIMIT
                    } else {
                        count
                    },
                },
                WatcherAction::Check { index: 0 },
            )
        },
        (WatcherState::Checking { index, count }, WatcherEvent::Checked { outcome }) => (
            WatcherState::Pausing { index, count },
            WatcherAction::Sleep { millis: CHECK_DELAY_MS },
        ),
        (WatcherState::Pausing { index, count }, WatcherEvent::Tick) => if index + 1 < count {
            (
                WatcherState::Checking { index: (index + 1) as usize, count },
                WatcherAction::Check { index: (index + 1) as usize },
            )
        } else {
            next_cycle
        },
        _ => (state, WatcherAction::Nothing),
    }
}

/// The state and the first action of a watcher that starts: it sleeps before its
/// first cycle.
pub fn watcher_start() -> (begin: (WatcherState, WatcherAction))
    ensures
        begin == (WatcherState::Waiting, WatcherAction::Sleep { millis: CYCLE_INTERVAL_MS }),
{
    (WatcherState::Waiting, WatcherAction::Sleep { millis: CYCLE_INTERVAL_MS })
}

/// The watcher's next state and action on an event.
pub fn watcher_step(state: WatcherState, event: WatcherEvent) -> (next: (WatcherState, WatcherAction))
    ensures
        next == step_spec(state, event),
        state_valid(state) ==> state_valid(next.0),
{
    let next_cycle = (WatcherState::Waiting, WatcherAction::Sleep { millis: CYCLE_INTERVAL_MS });
    match (state, event) {
        (_, WatcherEvent::Cancel) => (WatcherState::Stopped, WatcherAction::Stop),
        (WatcherState::Stopped, _) => (WatcherState::Stopped, WatcherAction::Stop),
        (WatcherState::Waiting, WatcherEvent::Tick) => (
            WatcherState::Fetching,
            WatcherAction::ExpireAndFetch { limit: BATCH_LIMIT },
        ),
        (WatcherState::Fetching, WatcherEvent::BatchFailed) => next_cycle,
        (WatcherState::Fetching, WatcherEvent::Batch { count }) => if count == 0 {
            next_cycle
        } else {
            let taken = if count > BATCH_LIMIT {
                BATCH_LIMIT
            } else {
                count
            };
            (WatcherState::Checking { index: 0, count: taken }, WatcherAction::Check { index: 0 })
        },
        (WatcherState::Checking { index, count }, WatcherEvent::Checked { outcome }) => (
            WatcherState::Pausing { index, count },
            WatcherAction::Sleep { millis: CHECK_DELAY_MS },
        ),
        (WatcherState::Pausing { index, count }, WatcherEvent::Tick) => if index < count && index
            + 1 < count {
            (
                WatcherState::Checking { index: index + 1, count },
                WatcherAction::Check { index: index + 1 },
            )
        } else {
            next_cycle
        },
        _ => (state, WatcherAction::Nothing),
    }
}

/// A step keeps the state valid, and a check is only ever asked for an invoice of
/// the batch in hand.
pub proof fn lemma_step_valid(state: WatcherState, event: WatcherEvent)
    requires
        state_valid(state),
    ensures
        state_valid(step_spec(state, event).0),
        step_spec(state, event).1 matches WatcherAction::Check { index } ==> step_spec(
            state,
            event,
        ).0 matches WatcherState::Checking { index: at, count } && at == index && index < count
            <= BATCH_LIMIT,
{
}

/// How a check ended does not steer the watcher: a failed check is followed by the
/// same pause and the same next check as any other. And a stopped watcher stays
/// stopped, while `Cancel` stops it wherever it stands.
pub proof fn lemma_failure_never_aborts(
    state: WatcherState,
    outcome: CheckOutcome,
    event: WatcherEvent,
)
    ensures
        step_spec(state, WatcherEvent::Checked { outcome }) == step_spec(
            state,
            WatcherEvent::Checked { outcome: CheckOutcome::Failed },
        ),
        step_spec(WatcherState::Stopped, event) == (WatcherState::Stopped, WatcherAction::Stop),
        step_spec(state, WatcherEvent::Cancel) == (WatcherState::Stopped, WatcherAction::Stop),
{
}

} // verus!
