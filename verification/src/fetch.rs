//! Retrieval of one page: the failure classifier and the state machine that
//! decides, after each step the browser has taken, what it is asked to do
//! next. The machine performs no browser work itself; a driver carries out
//! each [`FetchAction`] and reports back with a [`FetchEvent`].

use vstd::prelude::*;
use crate::text::{append_text, chars_of, contains_word, decimal, decimal_text, has_substring};

verus! {

/// Why the retrieval of a page failed.
#[derive(Clone, Copy, Debug, PartialEq, Eq, Structural)]
pub enum FailureKind {
    /// The page or its tab vanished underneath the operation.
    SessionInvalidated,
    /// Navigation did not reach the awaited load state.
    NavigationTimeout,
    /// The rendered document could not be read.
    ContentUnavailable,
    /// The operation ran past the time allowed for one page.
    OperationTimeout,
}

/// What the browser was doing when it reported a failure.
#[derive(Clone, Copy, Debug, PartialEq, Eq, Structural)]
pub enum FetchStage {
    Acquire,
    Navigate,
    ReadContent,
}

/// A classified failure together with the browser's diagnostic text.
#[derive(Clone, Debug, PartialEq, Eq)]
pub struct Failure {
    pub kind: FailureKind,
    pub message: String,
}

/// The result of retrieving one page.
#[derive(Clone, Debug, PartialEq, Eq)]
pub enum FetchOutcome {
    Success(String),
    Failure(FailureKind, String),
}

/// How long a navigation waits before it counts as done.
#[derive(Clone, Copy, Debug, PartialEq, Eq, Structural)]
pub enum WaitCondition {
    /// The document has been parsed.
    DomReady,
    /// The document and its resources have loaded.
    FullyLoaded,
}

/// Seconds allowed for the retrieval of one page.
pub const PER_URL_TIMEOUT_SECS: u64 = 45;

/// Milliseconds granted to client-side rendering after a navigation.
pub const SETTLE_DELAY_MILLIS: u64 = 250;

/// A diagnostic text tells of a lost page when it names one of the known
/// signs that the page, its target or the whole browser is gone.
pub open spec fn signals_session_loss(diagnostic: Seq<char>) -> bool {
    ||| has_substring(diagnostic, "ObjectNotFound"@)
    ||| has_substring(diagnostic, "TargetClosed"@)
    ||| has_substring(diagnostic, "Session closed"@)
    ||| has_substring(diagnostic, "Browser has been closed"@)
}

/// The kind given to a failure at `stage` whose diagnostic text is
/// `diagnostic`.
pub open spec fn classified(stage: FetchStage, diagnostic: Seq<char>) -> FailureKind {
    if signals_session_loss(diagnostic) {
        FailureKind::SessionInvalidated
    } else {
        match stage {
            FetchStage::Acquire => FailureKind::SessionInvalidated,
            FetchStage::Navigate => FailureKind::NavigationTimeout,
            FetchStage::ReadContent => FailureKind::ContentUnavailable,
        }
    }
}

/// Whether a diagnostic text tells that the page is gone, so that only a
/// fresh page can serve a retry.
pub fn is_object_not_found(diagnostic: &str) -> (lost: bool)
    ensures
        lost == signals_session_loss(diagnostic@),
{
    let text = chars_of(diagnostic);
    contains_word(&text, "ObjectNotFound")
        || contains_word(&text, "TargetClosed")
        || contains_word(&text, "Session closed")
        || contains_word(&text, "Browser has been closed")
}

/// Classifies a failure reported at `stage` by its diagnostic text. A lost
/// page is recognised at every stage; a page that could not be acquired
/// counts as lost too.
pub fn classify(stage: FetchStage, diagnostic: String) -> (failure: Failure)
    ensures
        failure.kind == classified(stage, diagnostic@),
        failure.message == diagnostic,
{
    let kind = if is_object_not_found(diagnostic.as_str()) {
        FailureKind::SessionInvalidated
    } else {
        match stage {
            FetchStage::Acquire => FailureKind::SessionInvalidated,
            FetchStage::Navigate => FailureKind::NavigationTimeout,
            FetchStage::ReadContent => FailureKind::ContentUnavailable,
        }
    };
    Failure { kind, message: diagnostic }
}

/// Why the operation is waiting for a page to be opened.
#[derive(Clone, Copy, Debug, PartialEq, Eq, Structural)]
pub enum OpenFor {
    /// The first page of the operation.
    FirstNavigation,
    /// A fresh page after the first navigation lost its page.
    NavigationRetry,
    /// A fresh page after reading the content lost its page.
    ContentRetry,
}

/// Which navigation of the operation is under way.
#[derive(Clone, Copy, Debug, PartialEq, Eq, Structural)]
pub enum NavAttempt {
    /// The first navigation, which waits for the parsed document.
    First,
    /// The one retry of a failed first navigation, which waits for the full
    /// load.
    Retry,
    /// The navigation of the fresh page that serves a second read.
    Recovery,
}

/// Which read of the rendered document is under way.
#[derive(Clone, Copy, Debug, PartialEq, Eq, Structural)]
pub enum ReadAttempt {
    First,
    Retry,
}

/// What follows once the page that is being closed has been closed.
#[derive(Clone, Debug, PartialEq, Eq)]
pub enum AfterClose {
    /// A fresh page is opened for the navigation retry.
    ReopenForNavigation,
    /// A fresh page is opened for the second read.
    ReopenForContent,
    /// The operation ends with this outcome.
    Deliver(FetchOutcome),
}

/// The state of one page retrieval. A page is held in every state but
/// `Opening` and `Finished`.
#[derive(Clone, Debug, PartialEq, Eq)]
pub enum FetchOp {
    /// A page has been asked for.
    Opening(OpenFor),
    /// The page is navigating.
    Navigating(NavAttempt),
    /// The page is given time to render.
    Settling,
    /// The rendered document is being read.
    Reading(ReadAttempt),
    /// The page is being closed.
    Closing(AfterClose),
    /// The outcome has been delivered.
    Finished,
}

/// What the driver reports after carrying out an action.
#[derive(Clone, Debug, PartialEq, Eq)]
pub enum FetchEvent {
    PageOpened,
    PageOpenFailed(Failure),
    Navigated,
    NavigationFailed(Failure),
    /// The settle delay is over, whether or not it ran undisturbed.
    Settled,
    ContentRead(String),
    ContentFailed(Failure),
    /// The close has been attempted, whether or not it succeeded.
    PageClosed,
    /// The time allowed for this page ran out during the pending action;
    /// the text says so.
    DeadlineElapsed(String),
}

/// What the driver is asked to do next.
#[derive(Clone, Debug, PartialEq, Eq)]
pub enum FetchAction {
    OpenPage,
    Navigate(WaitCondition),
    Settle,
    ReadContent,
    ClosePage,
    /// Nothing is left to do: this is the outcome for the page.
    Finish(FetchOutcome),
}

/// The navigation that a freshly opened page starts with.
pub open spec fn attempt_after(purpose: OpenFor) -> NavAttempt {
    match purpose {
        OpenFor::FirstNavigation => NavAttempt::First,
        OpenFor::NavigationRetry => NavAttempt::Retry,
        OpenFor::ContentRetry => NavAttempt::Recovery,
    }
}

/// The load state that each navigation waits for.
pub open spec fn wait_of(attempt: NavAttempt) -> WaitCondition {
    match attempt {
        NavAttempt::First => WaitCondition::DomReady,
        NavAttempt::Retry => WaitCondition::FullyLoaded,
        NavAttempt::Recovery => WaitCondition::DomReady,
    }
}

/// The outcome that reports `failure`.
pub open spec fn failed_with(failure: Failure) -> FetchOutcome {
    FetchOutcome::Failure(failure.kind, failure.message)
}

/// The outcome of an operation that ran out of time.
pub open spec fn out_of_time(message: String) -> FetchOutcome {
    FetchOutcome::Failure(FailureKind::OperationTimeout, message)
}

/// A page is held, and has not been asked to close.
pub open spec fn page_in_use(op: FetchOp) -> bool {
    op is Navigating || op is Settling || op is Reading
}

/// The state in which every retrieval starts; its first action is
/// `OpenPage`.
pub open spec fn initial_op() -> FetchOp {
    FetchOp::Opening(OpenFor::FirstNavigation)
}

/// The step that the machine takes from `op` on `event`, with the action it
/// asks for. `None` where the event does not fit the state: the machine
/// then stays where it is and asks for nothing.
///
/// A deadline is heeded while a page is awaited or in use. While a page is
/// being closed it is not: the close always runs to its end.
pub open spec fn reaction(op: FetchOp, event: FetchEvent) -> Option<(FetchOp, FetchAction)> {
    match (op, event) {
        (FetchOp::Opening(_), FetchEvent::DeadlineElapsed(message)) => Some(
            (FetchOp::Finished, FetchAction::Finish(out_of_time(message))),
        ),
        (FetchOp::Navigating(_), FetchEvent::DeadlineElapsed(message)) => Some(
            (FetchOp::Closing(AfterClose::Deliver(out_of_time(message))), FetchAction::ClosePage),
        ),
        (FetchOp::Settling, FetchEvent::DeadlineElapsed(message)) => Some(
            (FetchOp::Closing(AfterClose::Deliver(out_of_time(message))), FetchAction::ClosePage),
        ),
        (FetchOp::Reading(_), FetchEvent::DeadlineElapsed(message)) => Some(
            (FetchOp::Closing(AfterClose::Deliver(out_of_time(message))), FetchAction::ClosePage),
        ),
        (FetchOp::Opening(purpose), FetchEvent::PageOpened) => Some(
            (
                FetchOp::Navigating(attempt_after(purpose)),
                FetchAction::Navigate(wait_of(attempt_after(purpose))),
            ),
        ),
        (FetchOp::Opening(_), FetchEvent::PageOpenFailed(failure)) => Some(
            (FetchOp::Finished, FetchAction::Finish(failed_with(failure))),
        ),
        (FetchOp::Navigating(NavAttempt::Recovery), FetchEvent::Navigated) => Some(
            (FetchOp::Reading(ReadAttempt::Retry), FetchAction::ReadContent),
        ),
        (FetchOp::Navigating(_), FetchEvent::Navigated) => Some(
            (FetchOp::Settling, FetchAction::Settle),
        ),
        (FetchOp::Navigating(NavAttempt::First), FetchEvent::NavigationFailed(failure)) => {
            if failure.kind == FailureKind::SessionInvalidated {
                Some((FetchOp::Closing(AfterClose::ReopenForNavigation), FetchAction::ClosePage))
            } else {
                Some(
                    (
                        FetchOp::Navigating(NavAttempt::Retry),
                        FetchAction::Navigate(WaitCondition::FullyLoaded),
                    ),
                )
            }
        },
        (FetchOp::Navigating(_), FetchEvent::NavigationFailed(failure)) => Some(
            (
                FetchOp::Closing(AfterClose::Deliver(failed_with(failure))),
                FetchAction::ClosePage,
            ),
        ),
        (FetchOp::Settling, FetchEvent::Settled) => Some(
            (FetchOp::Reading(ReadAttempt::First), FetchAction::ReadContent),
        ),
        (FetchOp::Reading(_), FetchEvent::ContentRead(html)) => Some(
            (
                FetchOp::Closing(AfterClose::Deliver(FetchOutcome::Success(html))),
                FetchAction::ClosePage,
            ),
        ),
        (FetchOp::Reading(ReadAttempt::First), FetchEvent::ContentFailed(failure)) => {
            if failure.kind == FailureKind::SessionInvalidated {
                Some((FetchOp::Closing(AfterClose::ReopenForContent), FetchAction::ClosePage))
            } else {
                Some(
                    (
                        FetchOp::Closing(AfterClose::Deliver(failed_with(failure))),
                        FetchAction::ClosePage,
                    ),
                )
            }
        },
        (FetchOp::Reading(ReadAttempt::Retry), FetchEvent::ContentFailed(failure)) => Some(
            (
                FetchOp::Closing(AfterClose::Deliver(failed_with(failure))),
                FetchAction::ClosePage,
            ),
        ),
        (FetchOp::Closing(AfterClose::ReopenForNavigation), FetchEvent::PageClosed) => Some(
            (FetchOp::Opening(OpenFor::NavigationRetry), FetchAction::OpenPage),
        ),
        (FetchOp::Closing(AfterClose::ReopenForContent), FetchEvent::PageClosed) => Some(
            (FetchOp::Opening(OpenFor::ContentRetry), FetchAction::OpenPage),
        ),
        (FetchOp::Closing(AfterClose::Deliver(outcome)), FetchEvent::PageClosed) => Some(
            (FetchOp::Finished, FetchAction::Finish(outcome)),
        ),
        _ => None,
    }
}

/// What is said of an operation that ran out of time: how many seconds it
/// was allowed.
pub open spec fn timeout_message() -> Seq<char> {
    "timeout after "@ + decimal(PER_URL_TIMEOUT_SECS as nat) + "s"@
}

/// The event that reports an elapsed deadline, with the text that the
/// outcome will carry.
pub fn deadline_elapsed() -> (event: FetchEvent)
    ensures
        event matches FetchEvent::DeadlineElapsed(message) && message@ == timeout_message(),
{
    let mut message = String::new();
    append_text(&mut message, "timeout after ");
    append_text(&mut message, decimal_text(PER_URL_TIMEOUT_SECS).as_str());
    append_text(&mut message, "s");
    FetchEvent::DeadlineElapsed(message)
}

impl FetchOp {
    /// Starts the retrieval of one page: the state to begin in, and the
    /// first action, which asks for a page.
    pub fn start() -> (begun: (FetchOp, FetchAction))
        ensures
            begun.0 == initial_op(),
            begun.1 == FetchAction::OpenPage,
    {
        (FetchOp::Opening(OpenFor::FirstNavigation), FetchAction::OpenPage)
    }

    /// Whether the outcome has been delivered.
    pub fn is_finished(&self) -> (done: bool)
        ensures
            done == (*self is Finished),
    {
        match self {
            FetchOp::Finished => true,
            _ => false,
        }
    }

    /// Whether the operation holds a page: one that is in use or is being
    /// closed.
    pub fn holds_page(&self) -> (held: bool)
        ensures
            held == (page_in_use(*self) || *self is Closing),
    {
        match self {
            FetchOp::Opening(_) => false,
            FetchOp::Finished => false,
            _ => true,
        }
    }

    /// Takes one step: the state after `event`, and the action to carry
    /// out next. An event that does not fit the state changes nothing and
    /// asks for nothing.
    pub fn step(self, event: FetchEvent) -> (next: (FetchOp, Option<FetchAction>))
        ensures
            match reaction(self, event) {
                Some((op, action)) => next == (op, Some(action)),
                None => next == (self, None::<FetchAction>),
            },
    {
        match (self, event) {
            (FetchOp::Opening(_), FetchEvent::DeadlineElapsed(message)) => (
                FetchOp::Finished,
                Some(
                    FetchAction::Finish(
                        FetchOutcome::Failure(FailureKind::OperationTimeout, message),
                    ),
                ),
            ),
            (FetchOp::Navigating(_), FetchEvent::DeadlineElapsed(message)) => (
                FetchOp::Closing(
                    AfterClose::Deliver(
                        FetchOutcome::Failure(FailureKind::OperationTimeout, message),
                    ),
                ),
                Some(FetchAction::ClosePage),
            ),
            (FetchOp::Settling, FetchEvent::DeadlineElapsed(message)) => (
                FetchOp::Closing(
                    AfterClose::Deliver(
                        FetchOutcome::Failure(FailureKind::OperationTimeout, message),
                    ),
                ),
                Some(FetchAction::ClosePage),
            ),
            (FetchOp::Reading(_), FetchEvent::DeadlineElapsed(message)) => (
                FetchOp::Closing(
                    AfterClose::Deliver(
                        FetchOutcome::Failure(FailureKind::OperationTimeout, message),
                    ),
                ),
                Some(FetchAction::ClosePage),
            ),
            (FetchOp::Opening(purpose), FetchEvent::PageOpened) => {
                let attempt = match purpose {
                    OpenFor::FirstNavigation => NavAttempt::First,
                    OpenFor::NavigationRetry => NavAttempt::Retry,
                    OpenFor::ContentRetry => NavAttempt::Recovery,
                };
                let wait = match attempt {
                    NavAttempt::Retry => WaitCondition::FullyLoaded,
                    _ => WaitCondition::DomReady,
                };
                (FetchOp::Navigating(attempt), Some(FetchAction::Navigate(wait)))
            },
            (FetchOp::Opening(_), FetchEvent::PageOpenFailed(failure)) => (
                FetchOp::Finished,
                Some(FetchAction::Finish(FetchOutcome::Failure(failure.kind, failure.message))),
            ),
            (FetchOp::Navigating(NavAttempt::Recovery), FetchEvent::Navigated) => (
                FetchOp::Reading(ReadAttempt::Retry),
                Some(FetchAction::ReadContent),
            ),
            (FetchOp::Navigating(_), FetchEvent::Navigated) => (
                FetchOp::Settling,
                Some(FetchAction::Settle),
            ),
            (FetchOp::Navigating(NavAttempt::First), FetchEvent::NavigationFailed(failure)) => {
                if failure.kind == FailureKind::SessionInvalidated {
                    (
                        FetchOp::Closing(AfterClose::ReopenForNavigation),
                        Some(FetchAction::ClosePage),
                    )
                } else {
                    (
                        FetchOp::Navigating(NavAttempt::Retry),
                        Some(FetchAction::Navigate(WaitCondition::FullyLoaded)),
                    )
                }
            },
            (FetchOp::Navigating(_), FetchEvent::NavigationFailed(failure)) => (
                FetchOp::Closing(
                    AfterClose::Deliver(FetchOutcome::Failure(failure.kind, failure.message)),
                ),
                Some(FetchAction::ClosePage),
            ),
            (FetchOp::Settling, FetchEvent::Settled) => (
                FetchOp::Reading(ReadAttempt::First),
                Some(FetchAction::ReadContent),
            ),
            (FetchOp::Reading(_), FetchEvent::ContentRead(html)) => (
                FetchOp::Closing(AfterClose::Deliver(FetchOutcome::Success(html))),
                Some(FetchAction::ClosePage),
            ),
            (FetchOp::Reading(ReadAttempt::First), FetchEvent::ContentFailed(failure)) => {
                if failure.kind == FailureKind::SessionInvalidated {
                    (
                        FetchOp::Closing(AfterClose::ReopenForContent),
                        Some(FetchAction::ClosePage),
                    )
                } else {
                    (
                        FetchOp::Closing(
                            AfterClose::Deliver(
                                FetchOutcome::Failure(failure.kind, failure.message),
                            ),
                        ),
                        Some(FetchAction::ClosePage),
                    )
                }
            },
            (FetchOp::Reading(ReadAttempt::Retry), FetchEvent::ContentFailed(failure)) => (
                FetchOp::Closing(
                    AfterClose::Deliver(FetchOutcome::Failure(failure.kind, failure.message)),
                ),
                Some(FetchAction::ClosePage),
            ),
            (FetchOp::Closing(AfterClose::ReopenForNavigation), FetchEvent::PageClosed) => (
                FetchOp::Opening(OpenFor::NavigationRetry),
                Some(FetchAction::OpenPage),
            ),
            (FetchOp::Closing(AfterClose::ReopenForContent), FetchEvent::PageClosed) => (
                FetchOp::Opening(OpenFor::ContentRetry),
                Some(FetchAction::OpenPage),
            ),
            (FetchOp::Closing(AfterClose::Deliver(outcome)), FetchEvent::PageClosed) => (
                FetchOp::Finished,
                Some(FetchAction::Finish(outcome)),
            ),
            (op, _) => (op, None),
        }
    }
}

/// An upper bound on the steps that an operation in state `op` can still
/// take.
pub open spec fn steps_left(op: FetchOp) -> nat {
    match op {
        FetchOp::Opening(OpenFor::FirstNavigation) => 12,
        FetchOp::Navigating(NavAttempt::First) => 11,
        FetchOp::Closing(AfterClose::ReopenForNavigation) => 10,
        FetchOp::Opening(OpenFor::NavigationRetry) => 9,
        FetchOp::Navigating(NavAttempt::Retry) => 8,
        FetchOp::Settling => 7,
        FetchOp::Reading(ReadAttempt::First) => 6,
        FetchOp::Closing(AfterClose::ReopenForContent) => 5,
        FetchOp::Opening(OpenFor::ContentRetry) => 4,
        FetchOp::Navigating(NavAttempt::Recovery) => 3,
        FetchOp::Reading(ReadAttempt::Retry) => 2,
        FetchOp::Closing(AfterClose::Deliver(_)) => 1,
        FetchOp::Finished => 0,
    }
}

/// The state that a retrieval is in after the driver has reported
/// `events`, in this order. Events that do not fit are passed over.
pub open spec fn state_after(events: Seq<FetchEvent>) -> FetchOp
    decreases events.len(),
{
    if events.len() == 0 {
        initial_op()
    } else {
        let before = state_after(events.drop_last());
        match reaction(before, events.last()) {
            Some((op, _)) => op,
            None => before,
        }
    }
}

/// The action that the last of `events` is answered with, if it fits the
/// state that the events before it led to.
pub open spec fn last_action(events: Seq<FetchEvent>) -> Option<FetchAction>
    recommends
        events.len() > 0,
{
    match reaction(state_after(events.drop_last()), events.last()) {
        Some((_, action)) => Some(action),
        None => None,
    }
}

/// How many pages have been opened in the course of `events`.
pub open spec fn pages_opened(events: Seq<FetchEvent>) -> nat
    decreases events.len(),
{
    if events.len() == 0 {
        0
    } else if events.last() is PageOpened && last_action(events) is Some {
        pages_opened(events.drop_last()) + 1
    } else {
        pages_opened(events.drop_last())
    }
}

/// How many times the driver has been asked to close a page in the course
/// of `events`.
pub open spec fn closes_asked(events: Seq<FetchEvent>) -> nat
    decreases events.len(),
{
    if events.len() == 0 {
        0
    } else if last_action(events) == Some(FetchAction::ClosePage) {
        closes_asked(events.drop_last()) + 1
    } else {
        closes_asked(events.drop_last())
    }
}

/// How many closes the driver has reported in the course of `events`.
pub open spec fn closes_done(events: Seq<FetchEvent>) -> nat
    decreases events.len(),
{
    if events.len() == 0 {
        0
    } else if events.last() is PageClosed && last_action(events) is Some {
        closes_done(events.drop_last()) + 1
    } else {
        closes_done(events.drop_last())
    }
}

/// How many navigations that wait for the full load have been asked for in
/// the course of `events`.
pub open spec fn full_loads_asked(events: Seq<FetchEvent>) -> nat
    decreases events.len(),
{
    if events.len() == 0 {
        0
    } else if last_action(events) == Some(FetchAction::Navigate(WaitCondition::FullyLoaded)) {
        full_loads_asked(events.drop_last()) + 1
    } else {
        full_loads_asked(events.drop_last())
    }
}

/// Every step brings the operation nearer to its end: a retrieval takes at
/// most twelve steps, however the browser behaves.
pub proof fn lemma_step_makes_progress(op: FetchOp, event: FetchEvent)
    ensures
        steps_left(initial_op()) == 12,
        reaction(op, event) matches Some((next, _)) ==> steps_left(next) < steps_left(op),
        op is Finished ==> reaction(op, event) is None,
{
}

/// The outcome is delivered by the step that finishes the operation, and
/// by no other.
pub proof fn lemma_outcome_ends_operation(op: FetchOp, event: FetchEvent)
    ensures
        reaction(op, event) matches Some((next, action)) ==> (next is Finished <==> action is Finish),
{
}

/// Every page that is opened is closed exactly once. At any moment the
/// pages opened so far are those that the driver was asked to close, and
/// the one in use if there is one; the closes reported are those asked for,
/// less the one under way. When the outcome is delivered, each page has been
/// opened, asked to close once, and reported closed.
pub proof fn lemma_every_page_closed_once(events: Seq<FetchEvent>)
    ensures
        pages_opened(events) == closes_asked(events) + (if page_in_use(state_after(events)) {
            1nat
        } else {
            0nat
        }),
        closes_asked(events) == closes_done(events) + (if state_after(events) is Closing {
            1nat
        } else {
            0nat
        }),
        state_after(events) is Finished ==> pages_opened(events) == closes_asked(events)
            && closes_asked(events) == closes_done(events),
    decreases events.len(),
{
    if events.len() > 0 {
        lemma_every_page_closed_once(events.drop_last());
    }
}

/// A navigation is retried once and no more: in every run the stronger
/// wait is asked for at most once, and once it has been, the first
/// navigation is behind.
pub proof fn lemma_one_navigation_retry(events: Seq<FetchEvent>)
    ensures
        full_loads_asked(events) <= 1,
        full_loads_asked(events) == 1 ==> steps_left(state_after(events)) <= 8,
    decreases events.len(),
{
    if events.len() > 0 {
        lemma_one_navigation_retry(events.drop_last());
    }
}

/// When the first navigation fails because the page is lost, the page is
/// closed, a fresh one is opened and the navigation is retried on it with
/// the stronger wait. When it fails for any other reason, the retry runs on
/// the same page. A retry that fails ends the operation with that failure,
/// after the page has been closed.
pub proof fn lemma_retry_policy(first: Failure, second: Failure)
    ensures
        first.kind == FailureKind::SessionInvalidated ==> {
            &&& reaction(
                FetchOp::Navigating(NavAttempt::First),
                FetchEvent::NavigationFailed(first),
            ) == Some((FetchOp::Closing(AfterClose::ReopenForNavigation), FetchAction::ClosePage))
            &&& reaction(FetchOp::Closing(AfterClose::ReopenForNavigation), FetchEvent::PageClosed)
                == Some((FetchOp::Opening(OpenFor::NavigationRetry), FetchAction::OpenPage))
            &&& reaction(FetchOp::Opening(OpenFor::NavigationRetry), FetchEvent::PageOpened)
                == Some(
                (
                    FetchOp::Navigating(NavAttempt::Retry),
                    FetchAction::Navigate(WaitCondition::FullyLoaded),
                ),
            )
        },
        first.kind != FailureKind::SessionInvalidated ==> reaction(
            FetchOp::Navigating(NavAttempt::First),
            FetchEvent::NavigationFailed(first),
        ) == Some(
            (
                FetchOp::Navigating(NavAttempt::Retry),
                FetchAction::Navigate(WaitCondition::FullyLoaded),
            ),
        ),
        reaction(FetchOp::Navigating(NavAttempt::Retry), FetchEvent::NavigationFailed(second))
            == Some(
            (FetchOp::Closing(AfterClose::Deliver(failed_with(second))), FetchAction::ClosePage),
        ),
        reaction(
            FetchOp::Closing(AfterClose::Deliver(failed_with(second))),
            FetchEvent::PageClosed,
        ) == Some((FetchOp::Finished, FetchAction::Finish(failed_with(second)))),
{
}

/// When the first read fails because the page is lost, the page is closed,
/// a fresh one is opened and navigated, and the read is tried once more.
/// Any other failure of a read, and any failure of the second read, ends the
/// operation with that failure.
pub proof fn lemma_read_retry_policy(first: Failure, second: Failure)
    ensures
        first.kind == FailureKind::SessionInvalidated ==> {
            &&& reaction(FetchOp::Reading(ReadAttempt::First), FetchEvent::ContentFailed(first))
                == Some((FetchOp::Closing(AfterClose::ReopenForContent), FetchAction::ClosePage))
            &&& reaction(FetchOp::Closing(AfterClose::ReopenForContent), FetchEvent::PageClosed)
                == Some((FetchOp::Opening(OpenFor::ContentRetry), FetchAction::OpenPage))
            &&& reaction(FetchOp::Opening(OpenFor::ContentRetry), FetchEvent::PageOpened) == Some(
                (
                    FetchOp::Navigating(NavAttempt::Recovery),
                    FetchAction::Navigate(WaitCondition::DomReady),
                ),
            )
            &&& reaction(FetchOp::Navigating(NavAttempt::Recovery), FetchEvent::Navigated) == Some(
                (FetchOp::Reading(ReadAttempt::Retry), FetchAction::ReadContent),
            )
        },
        first.kind != FailureKind::SessionInvalidated ==> reaction(
            FetchOp::Reading(ReadAttempt::First),
            FetchEvent::ContentFailed(first),
        ) == Some(
            (FetchOp::Closing(AfterClose::Deliver(failed_with(first))), FetchAction::ClosePage),
        ),
        reaction(FetchOp::Reading(ReadAttempt::Retry), FetchEvent::ContentFailed(second)) == Some(
            (FetchOp::Closing(AfterClose::Deliver(failed_with(second))), FetchAction::ClosePage),
        ),
{
}

} // verus!
