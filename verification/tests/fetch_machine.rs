use page_harvest::fetch::{
    classify, deadline_elapsed, is_object_not_found, AfterClose, Failure, FailureKind,
    FetchAction, FetchEvent, FetchOp, FetchOutcome, FetchStage, NavAttempt, OpenFor,
    ReadAttempt, WaitCondition, PER_URL_TIMEOUT_SECS, SETTLE_DELAY_MILLIS,
};

fn lost(message: &str) -> Failure {
    Failure { kind: FailureKind::SessionInvalidated, message: message.to_string() }
}

fn slow(message: &str) -> Failure {
    Failure { kind: FailureKind::NavigationTimeout, message: message.to_string() }
}

fn unreadable(message: &str) -> Failure {
    Failure { kind: FailureKind::ContentUnavailable, message: message.to_string() }
}

struct Run {
    actions: Vec<FetchAction>,
    op: FetchOp,
    opened: usize,
    closes_asked: usize,
    closes_done: usize,
}

/// Feeds the events to a fresh operation and keeps count of pages and closes.
fn run(events: Vec<FetchEvent>) -> Run {
    let (mut op, first) = FetchOp::start();
    let mut r = Run { actions: vec![first], op: op.clone(), opened: 0, closes_asked: 0, closes_done: 0 };
    for event in events {
        let was_open = matches!(event, FetchEvent::PageOpened);
        let was_close = matches!(event, FetchEvent::PageClosed);
        let (next, action) = op.step(event);
        op = next;
        if let Some(action) = action {
            if was_open {
                r.opened += 1;
            }
            if was_close {
                r.closes_done += 1;
            }
            if action == FetchAction::ClosePage {
                r.closes_asked += 1;
            }
            r.actions.push(action);
        }
    }
    r.op = op;
    r
}

fn assert_all_pages_closed(r: &Run) {
    assert!(r.op.is_finished());
    assert!(!r.op.holds_page());
    assert_eq!(r.opened, r.closes_asked);
    assert_eq!(r.closes_asked, r.closes_done);
    assert!(matches!(r.actions.last(), Some(FetchAction::Finish(_))));
}

#[test]
fn policy_constants() {
    assert_eq!(PER_URL_TIMEOUT_SECS, 45);
    assert_eq!(SETTLE_DELAY_MILLIS, 250);
}

#[test]
fn start_asks_for_a_page() {
    let (op, action) = FetchOp::start();
    assert_eq!(op, FetchOp::Opening(OpenFor::FirstNavigation));
    assert_eq!(action, FetchAction::OpenPage);
    assert!(!op.is_finished());
    assert!(!op.holds_page());
}

#[test]
fn undisturbed_fetch_delivers_the_page() {
    let r = run(vec![
        FetchEvent::PageOpened,
        FetchEvent::Navigated,
        FetchEvent::Settled,
        FetchEvent::ContentRead("<html>ok</html>".to_string()),
        FetchEvent::PageClosed,
    ]);
    assert_eq!(
        r.actions,
        vec![
            FetchAction::OpenPage,
            FetchAction::Navigate(WaitCondition::DomReady),
            FetchAction::Settle,
            FetchAction::ReadContent,
            FetchAction::ClosePage,
            FetchAction::Finish(FetchOutcome::Success("<html>ok</html>".to_string())),
        ]
    );
    assert_eq!(r.opened, 1);
    assert_all_pages_closed(&r);
}

#[test]
fn lost_page_during_navigation_is_retried_on_a_fresh_page() {
    let r = run(vec![
        FetchEvent::PageOpened,
        FetchEvent::NavigationFailed(lost("TargetClosed")),
        FetchEvent::PageClosed,
        FetchEvent::PageOpened,
        FetchEvent::Navigated,
        FetchEvent::Settled,
        FetchEvent::ContentRead("page".to_string()),
        FetchEvent::PageClosed,
    ]);
    assert_eq!(
        r.actions,
        vec![
            FetchAction::OpenPage,
            FetchAction::Navigate(WaitCondition::DomReady),
            FetchAction::ClosePage,
            FetchAction::OpenPage,
            FetchAction::Navigate(WaitCondition::FullyLoaded),
            FetchAction::Settle,
            FetchAction::ReadContent,
            FetchAction::ClosePage,
            FetchAction::Finish(FetchOutcome::Success("page".to_string())),
        ]
    );
    assert_eq!(r.opened, 2);
    assert_all_pages_closed(&r);
}

#[test]
fn generic_navigation_failure_is_retried_on_the_same_page() {
    let r = run(vec![
        FetchEvent::PageOpened,
        FetchEvent::NavigationFailed(slow("net::ERR_TIMED_OUT")),
        FetchEvent::Navigated,
        FetchEvent::Settled,
        FetchEvent::ContentRead("page".to_string()),
        FetchEvent::PageClosed,
    ]);
    assert_eq!(
        r.actions,
        vec![
            FetchAction::OpenPage,
            FetchAction::Navigate(WaitCondition::DomReady),
            FetchAction::Navigate(WaitCondition::FullyLoaded),
            FetchAction::Settle,
            FetchAction::ReadContent,
            FetchAction::ClosePage,
            FetchAction::Finish(FetchOutcome::Success("page".to_string())),
        ]
    );
    assert_eq!(r.opened, 1);
    assert_all_pages_closed(&r);
}

#[test]
fn failed_retry_ends_the_fetch_after_closing_the_page() {
    for first in vec![lost("ObjectNotFound"), slow("slow")] {
        let fresh = first.kind == FailureKind::SessionInvalidated;
        let mut events = vec![FetchEvent::PageOpened, FetchEvent::NavigationFailed(first)];
        if fresh {
            events.push(FetchEvent::PageClosed);
            events.push(FetchEvent::PageOpened);
        }
        events.push(FetchEvent::NavigationFailed(lost("Session closed")));
        events.push(FetchEvent::PageClosed);
        let r = run(events);
        assert_eq!(
            r.actions.last(),
            Some(&FetchAction::Finish(FetchOutcome::Failure(
                FailureKind::SessionInvalidated,
                "Session closed".to_string()
            )))
        );
        let retries = r
            .actions
            .iter()
            .filter(|a| **a == FetchAction::Navigate(WaitCondition::FullyLoaded))
            .count();
        assert_eq!(retries, 1);
        assert_eq!(r.opened, if fresh { 2 } else { 1 });
        assert_all_pages_closed(&r);
    }
}

#[test]
fn lost_page_during_read_is_read_again_on_a_fresh_page() {
    let r = run(vec![
        FetchEvent::PageOpened,
        FetchEvent::Navigated,
        FetchEvent::Settled,
        FetchEvent::ContentFailed(lost("Browser has been closed")),
        FetchEvent::PageClosed,
        FetchEvent::PageOpened,
        FetchEvent::Navigated,
        FetchEvent::ContentRead("second".to_string()),
        FetchEvent::PageClosed,
    ]);
    assert_eq!(
        r.actions,
        vec![
            FetchAction::OpenPage,
            FetchAction::Navigate(WaitCondition::DomReady),
            FetchAction::Settle,
            FetchAction::ReadContent,
            FetchAction::ClosePage,
            FetchAction::OpenPage,
            FetchAction::Navigate(WaitCondition::DomReady),
            FetchAction::ReadContent,
            FetchAction::ClosePage,
            FetchAction::Finish(FetchOutcome::Success("second".to_string())),
        ]
    );
    assert_eq!(r.opened, 2);
    assert_all_pages_closed(&r);
}

#[test]
fn other_read_failure_is_final() {
    let r = run(vec![
        FetchEvent::PageOpened,
        FetchEvent::Navigated,
        FetchEvent::Settled,
        FetchEvent::ContentFailed(unreadable("evaluation failed")),
        FetchEvent::PageClosed,
    ]);
    assert_eq!(
        r.actions.last(),
        Some(&FetchAction::Finish(FetchOutcome::Failure(
            FailureKind::ContentUnavailable,
            "evaluation failed".to_string()
        )))
    );
    assert_eq!(r.opened, 1);
    assert_all_pages_closed(&r);
}

#[test]
fn failures_on_the_fresh_page_close_it_too() {
    let to_recovery = || {
        vec![
            FetchEvent::PageOpened,
            FetchEvent::Navigated,
            FetchEvent::Settled,
            FetchEvent::ContentFailed(lost("TargetClosed")),
            FetchEvent::PageClosed,
            FetchEvent::PageOpened,
        ]
    };
    let mut a = to_recovery();
    a.push(FetchEvent::NavigationFailed(slow("again")));
    a.push(FetchEvent::PageClosed);
    let r = run(a);
    assert_eq!(
        r.actions.last(),
        Some(&FetchAction::Finish(FetchOutcome::Failure(
            FailureKind::NavigationTimeout,
            "again".to_string()
        )))
    );
    assert_eq!(r.opened, 2);
    assert_all_pages_closed(&r);

    let mut b = to_recovery();
    b.push(FetchEvent::Navigated);
    b.push(FetchEvent::ContentFailed(lost("TargetClosed")));
    b.push(FetchEvent::PageClosed);
    let r = run(b);
    assert_eq!(
        r.actions.last(),
        Some(&FetchAction::Finish(FetchOutcome::Failure(
            FailureKind::SessionInvalidated,
            "TargetClosed".to_string()
        )))
    );
    assert_eq!(r.opened, 2);
    assert_all_pages_closed(&r);
}

#[test]
fn page_that_cannot_be_opened_ends_the_fetch() {
    let r = run(vec![FetchEvent::PageOpenFailed(lost("context.new_page failed"))]);
    assert_eq!(
        r.actions,
        vec![
            FetchAction::OpenPage,
            FetchAction::Finish(FetchOutcome::Failure(
                FailureKind::SessionInvalidated,
                "context.new_page failed".to_string()
            )),
        ]
    );
    assert_eq!(r.opened, 0);
    assert_all_pages_closed(&r);
}

#[test]
fn deadline_closes_the_page_before_reporting() {
    let prefixes: Vec<Vec<FetchEvent>> = vec![
        vec![FetchEvent::PageOpened],
        vec![FetchEvent::PageOpened, FetchEvent::Navigated],
        vec![FetchEvent::PageOpened, FetchEvent::Navigated, FetchEvent::Settled],
        vec![FetchEvent::PageOpened, FetchEvent::NavigationFailed(slow("x"))],
    ];
    for mut events in prefixes {
        events.push(deadline_elapsed());
        events.push(FetchEvent::PageClosed);
        let r = run(events);
        let n = r.actions.len();
        assert_eq!(r.actions[n - 2], FetchAction::ClosePage);
        assert_eq!(
            r.actions[n - 1],
            FetchAction::Finish(FetchOutcome::Failure(
                FailureKind::OperationTimeout,
                "timeout after 45s".to_string()
            ))
        );
        assert_eq!(r.opened, 1);
        assert_all_pages_closed(&r);
    }
}

#[test]
fn deadline_without_a_page_reports_at_once() {
    let r = run(vec![deadline_elapsed()]);
    assert_eq!(
        r.actions,
        vec![
            FetchAction::OpenPage,
            FetchAction::Finish(FetchOutcome::Failure(
                FailureKind::OperationTimeout,
                "timeout after 45s".to_string()
            )),
        ]
    );
    assert_all_pages_closed(&r);
}

#[test]
fn deadline_does_not_interrupt_a_close() {
    let op = FetchOp::Closing(AfterClose::ReopenForNavigation);
    let (same, action) = op.clone().step(deadline_elapsed());
    assert_eq!(same, op);
    assert_eq!(action, None);
    let (next, action) = same.step(FetchEvent::PageClosed);
    assert_eq!(next, FetchOp::Opening(OpenFor::NavigationRetry));
    assert_eq!(action, Some(FetchAction::OpenPage));
    let (end, action) = next.step(deadline_elapsed());
    assert!(end.is_finished());
    assert!(matches!(
        action,
        Some(FetchAction::Finish(FetchOutcome::Failure(FailureKind::OperationTimeout, _)))
    ));
}

#[test]
fn events_that_do_not_fit_change_nothing() {
    let states = vec![
        FetchOp::Opening(OpenFor::FirstNavigation),
        FetchOp::Navigating(NavAttempt::First),
        FetchOp::Settling,
        FetchOp::Reading(ReadAttempt::Retry),
        FetchOp::Closing(AfterClose::Deliver(FetchOutcome::Success("x".to_string()))),
        FetchOp::Finished,
    ];
    let misfits = |op: &FetchOp| -> Vec<FetchEvent> {
        match op {
            FetchOp::Opening(_) => vec![FetchEvent::Navigated, FetchEvent::PageClosed, FetchEvent::Settled],
            FetchOp::Navigating(_) => vec![FetchEvent::PageOpened, FetchEvent::Settled, FetchEvent::ContentRead("x".to_string())],
            FetchOp::Settling => vec![FetchEvent::Navigated, FetchEvent::PageClosed],
            FetchOp::Reading(_) => vec![FetchEvent::Navigated, FetchEvent::Settled, FetchEvent::PageClosed],
            FetchOp::Closing(_) => vec![FetchEvent::PageOpened, FetchEvent::ContentFailed(lost("x"))],
            FetchOp::Finished => vec![FetchEvent::PageOpened, FetchEvent::PageClosed, deadline_elapsed()],
        }
    };
    for op in states {
        for event in misfits(&op) {
            let (next, action) = op.clone().step(event);
            assert_eq!(next, op);
            assert_eq!(action, None);
        }
    }
}

#[test]
fn no_fetch_takes_more_than_twelve_steps() {
    // The longest run: both retries on fresh pages.
    let r = run(vec![
        FetchEvent::PageOpened,
        FetchEvent::NavigationFailed(lost("TargetClosed")),
        FetchEvent::PageClosed,
        FetchEvent::PageOpened,
        FetchEvent::Navigated,
        FetchEvent::Settled,
        FetchEvent::ContentFailed(lost("TargetClosed")),
        FetchEvent::PageClosed,
        FetchEvent::PageOpened,
        FetchEvent::Navigated,
        FetchEvent::ContentRead("late".to_string()),
        FetchEvent::PageClosed,
        FetchEvent::PageOpened,
        FetchEvent::PageClosed,
    ]);
    assert_eq!(r.actions.len(), 13);
    assert_eq!(r.opened, 3);
    assert_all_pages_closed(&r);
}

#[test]
fn lost_page_is_recognised() {
    assert!(is_object_not_found("Error(ObjectNotFound)"));
    assert!(is_object_not_found("Error: TargetClosed at frame 3"));
    assert!(is_object_not_found("Protocol error: Session closed."));
    assert!(is_object_not_found("Browser has been closed"));
    assert!(!is_object_not_found("net::ERR_NAME_NOT_RESOLVED"));
    assert!(!is_object_not_found("session closed"));
    assert!(!is_object_not_found("Target Closed"));
    assert!(!is_object_not_found(""));
}

#[test]
fn failures_are_classified_by_text_and_stage() {
    let f = classify(FetchStage::Navigate, "Timeout 30000ms exceeded".to_string());
    assert_eq!(f, Failure { kind: FailureKind::NavigationTimeout, message: "Timeout 30000ms exceeded".to_string() });
    assert_eq!(classify(FetchStage::ReadContent, "boom".to_string()).kind, FailureKind::ContentUnavailable);
    assert_eq!(classify(FetchStage::Acquire, "boom".to_string()).kind, FailureKind::SessionInvalidated);
    assert_eq!(classify(FetchStage::Navigate, "x TargetClosed y".to_string()).kind, FailureKind::SessionInvalidated);
    assert_eq!(classify(FetchStage::ReadContent, "ObjectNotFound".to_string()).kind, FailureKind::SessionInvalidated);
}
