use opacore::watcher::{
    watcher_start, watcher_step, CheckOutcome, WatcherAction, WatcherEvent, WatcherState,
    BATCH_LIMIT, CHECK_DELAY_MS, CYCLE_INTERVAL_MS,
};

const NEXT_CYCLE: (WatcherState, WatcherAction) =
    (WatcherState::Waiting, WatcherAction::Sleep { millis: 60_000 });

#[test]
fn watcher_sleeps_before_its_first_cycle() {
    assert_eq!(watcher_start(), NEXT_CYCLE);
    assert_eq!(CYCLE_INTERVAL_MS, 60_000);
    assert_eq!(CHECK_DELAY_MS, 500);
    assert_eq!(BATCH_LIMIT, 10);
}

#[test]
fn cycle_checks_each_invoice_with_a_pause_after_it() {
    let (state, _) = watcher_start();
    let (state, action) = watcher_step(state, WatcherEvent::Tick);
    assert_eq!(state, WatcherState::Fetching);
    assert_eq!(action, WatcherAction::ExpireAndFetch { limit: 10 });

    let (state, action) = watcher_step(state, WatcherEvent::Batch { count: 2 });
    assert_eq!(state, WatcherState::Checking { index: 0, count: 2 });
    assert_eq!(action, WatcherAction::Check { index: 0 });

    let checked = WatcherEvent::Checked { outcome: CheckOutcome::Detected };
    let (state, action) = watcher_step(state, checked);
    assert_eq!(state, WatcherState::Pausing { index: 0, count: 2 });
    assert_eq!(action, WatcherAction::Sleep { millis: 500 });

    let (state, action) = watcher_step(state, WatcherEvent::Tick);
    assert_eq!(state, WatcherState::Checking { index: 1, count: 2 });
    assert_eq!(action, WatcherAction::Check { index: 1 });

    let checked = WatcherEvent::Checked { outcome: CheckOutcome::NotDetected };
    let (state, action) = watcher_step(state, checked);
    assert_eq!(state, WatcherState::Pausing { index: 1, count: 2 });
    assert_eq!(action, WatcherAction::Sleep { millis: 500 });

    assert_eq!(watcher_step(state, WatcherEvent::Tick), NEXT_CYCLE);
}

#[test]
fn failed_check_does_not_end_the_cycle() {
    let checking = WatcherState::Checking { index: 3, count: 7 };
    let failed = watcher_step(checking, WatcherEvent::Checked { outcome: CheckOutcome::Failed });
    assert_eq!(
        failed,
        (WatcherState::Pausing { index: 3, count: 7 }, WatcherAction::Sleep { millis: 500 })
    );
    for outcome in [CheckOutcome::Detected, CheckOutcome::NotDetected] {
        assert_eq!(watcher_step(checking, WatcherEvent::Checked { outcome }), failed);
    }
    assert_eq!(
        watcher_step(failed.0, WatcherEvent::Tick),
        (WatcherState::Checking { index: 4, count: 7 }, WatcherAction::Check { index: 4 })
    );
}

#[test]
fn empty_batch_and_store_failure_end_the_cycle() {
    assert_eq!(watcher_step(WatcherState::Fetching, WatcherEvent::Batch { count: 0 }), NEXT_CYCLE);
    assert_eq!(watcher_step(WatcherState::Fetching, WatcherEvent::BatchFailed), NEXT_CYCLE);
}

#[test]
fn batch_is_cut_to_the_limit() {
    assert_eq!(
        watcher_step(WatcherState::Fetching, WatcherEvent::Batch { count: 10 }),
        (WatcherState::Checking { index: 0, count: 10 }, WatcherAction::Check { index: 0 })
    );
    assert_eq!(
        watcher_step(WatcherState::Fetching, WatcherEvent::Batch { count: 11 }),
        (WatcherState::Checking { index: 0, count: 10 }, WatcherAction::Check { index: 0 })
    );
    assert_eq!(
        watcher_step(WatcherState::Fetching, WatcherEvent::Batch { count: usize::MAX }),
        (WatcherState::Checking { index: 0, count: 10 }, WatcherAction::Check { index: 0 })
    );
}

#[test]
fn cancel_stops_the_watcher_for_good() {
    let states = [
        WatcherState::Waiting,
        WatcherState::Fetching,
        WatcherState::Checking { index: 0, count: 1 },
        WatcherState::Pausing { index: 0, count: 1 },
        WatcherState::Stopped,
    ];
    for state in states {
        assert_eq!(
            watcher_step(state, WatcherEvent::Cancel),
            (WatcherState::Stopped, WatcherAction::Stop)
        );
    }
    let events = [
        WatcherEvent::Tick,
        WatcherEvent::Batch { count: 3 },
        WatcherEvent::BatchFailed,
        WatcherEvent::Checked { outcome: CheckOutcome::Detected },
    ];
    for event in events {
        assert_eq!(
            watcher_step(WatcherState::Stopped, event),
            (WatcherState::Stopped, WatcherAction::Stop)
        );
    }
}

#[test]
fn events_that_are_not_awaited_change_nothing() {
    let cases = [
        (WatcherState::Waiting, WatcherEvent::Batch { count: 3 }),
        (WatcherState::Waiting, WatcherEvent::BatchFailed),
        (WatcherState::Waiting, WatcherEvent::Checked { outcome: CheckOutcome::Failed }),
        (WatcherState::Fetching, WatcherEvent::Tick),
        (WatcherState::Fetching, WatcherEvent::Checked { outcome: CheckOutcome::Detected }),
        (WatcherState::Checking { index: 0, count: 2 }, WatcherEvent::Tick),
        (WatcherState::Checking { index: 0, count: 2 }, WatcherEvent::Batch { count: 1 }),
        (WatcherState::Pausing { index: 0, count: 2 }, WatcherEvent::BatchFailed),
    ];
    for (state, event) in cases {
        assert_eq!(watcher_step(state, event), (state, WatcherAction::Nothing));
    }
}

#[test]
fn pause_at_the_end_of_any_index_range_ends_the_cycle() {
    let last = WatcherState::Pausing { index: usize::MAX, count: 3 };
    assert_eq!(watcher_step(last, WatcherEvent::Tick), NEXT_CYCLE);
    let odd = WatcherState::Pausing { index: 5, count: 0 };
    assert_eq!(watcher_step(odd, WatcherEvent::Tick), NEXT_CYCLE);
}
