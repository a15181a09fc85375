//! The life of the subscription: connecting with the persisted cursor, streaming,
//! backing off after a failure and connecting again, until the upstream ends the stream.

use crate::streaming::{
    details_result_view, handle_message, message_outcome, subscription_url, subscription_url_of,
    CommitDetails, CommitDetailsView, StreamError, STREAMING_TIMEOUT,
};
use vstd::prelude::*;

verus! {

/// Seconds to wait after a failure before connecting again.
pub const BACKOFF_DELAY: u64 = 10;

/// How far connecting has come.
#[derive(Debug, Clone, Copy, PartialEq, Eq, Structural)]
pub enum ConnectStep {
    /// The persisted cursor is being read.
    FetchingCursor,
    /// The subscription had no state: it is being created.
    CreatingState,
    /// The connection is being opened.
    Opening,
}

/// The phase of the subscription.
#[derive(Debug, Clone, Copy, PartialEq, Eq, Structural)]
pub enum Phase {
    Disconnected,
    Connecting(ConnectStep),
    Streaming,
    Backoff,
    Terminated,
}

/// The subscription: its phase, the persisted cursor as it was last read, and the
/// sequence number of the last commit that the stream delivered.
#[derive(Debug, Clone, Copy, PartialEq, Eq, Structural)]
pub struct Lifecycle {
    pub phase: Phase,
    pub cursor: Option<i64>,
    pub last_seen: Option<i64>,
}

/// What happened to the subscription.
#[derive(Debug, Clone)]
pub enum LifecycleEvent {
    /// The subscription is to start.
    Started,
    /// The persisted cursor was read; `None` where the subscription has no state.
    CursorFetched(Option<i64>),
    /// The state of the subscription was created.
    StateCreated,
    /// The connection is open.
    Connected,
    /// A binary message arrived.
    Received(Vec<u8>),
    /// The commit that was handed out has been taken downstream.
    Delivered,
    /// Connecting failed, the stream reported an error, or what is downstream failed.
    Failed,
    /// No message arrived within the timeout.
    IdleTimeout,
    /// The stream ended, or carried something other than a binary message.
    Disconnected,
    /// The delay after a failure is over.
    BackoffElapsed,
}

/// Mathematical content of a [`LifecycleEvent`].
pub enum LifecycleEventView {
    Started,
    CursorFetched(Option<i64>),
    StateCreated,
    Connected,
    Received(Seq<u8>),
    Delivered,
    Failed,
    IdleTimeout,
    Disconnected,
    BackoffElapsed,
}

impl View for LifecycleEvent {
    type V = LifecycleEventView;

    open spec fn view(&self) -> LifecycleEventView {
        match self {
            LifecycleEvent::Started => LifecycleEventView::Started,
            LifecycleEvent::CursorFetched(cursor) => LifecycleEventView::CursorFetched(*cursor),
            LifecycleEvent::StateCreated => LifecycleEventView::StateCreated,
            LifecycleEvent::Connected => LifecycleEventView::Connected,
            LifecycleEvent::Received(message) => LifecycleEventView::Received(message@),
            LifecycleEvent::Delivered => LifecycleEventView::Delivered,
            LifecycleEvent::Failed => LifecycleEventView::Failed,
            LifecycleEvent::IdleTimeout => LifecycleEventView::IdleTimeout,
            LifecycleEvent::Disconnected => LifecycleEventView::Disconnected,
            LifecycleEvent::BackoffElapsed => LifecycleEventView::BackoffElapsed,
        }
    }
}

/// What is to be done next for the subscription.
#[derive(Debug, Clone)]
pub enum LifecycleAction {
    /// Read the persisted cursor and report it.
    FetchCursor,
    /// Create the state of the subscription and report that.
    CreateCursorState,
    /// Open a connection to `url` and report whether that worked.
    Connect { url: String },
    /// Wait for the next message, for `timeout` seconds at most.
    Receive { timeout: u64 },
    /// Hand the commit to the consumers, then report that it was delivered.
    Publish(CommitDetails),
    /// Wait for `seconds` seconds and report that they are over.
    Sleep { seconds: u64 },
    /// Give up: the upstream has ended the stream, and nothing is to be tried again.
    Fail,
    /// Nothing new: the event does not belong to the phase.
    Wait,
}

/// Mathematical content of a [`LifecycleAction`].
pub enum LifecycleActionView {
    FetchCursor,
    CreateCursorState,
    Connect { url: Seq<char> },
    Receive { timeout: u64 },
    Publish(CommitDetailsView),
    Sleep { seconds: u64 },
    Fail,
    Wait,
}

impl View for LifecycleAction {
    type V = LifecycleActionView;

    open spec fn view(&self) -> LifecycleActionView {
        match self {
            LifecycleAction::FetchCursor => LifecycleActionView::FetchCursor,
            LifecycleAction::CreateCursorState => LifecycleActionView::CreateCursorState,
            LifecycleAction::Connect { url } => LifecycleActionView::Connect { url: url@ },
            LifecycleAction::Receive { timeout } => LifecycleActionView::Receive {
                timeout: *timeout,
            },
            LifecycleAction::Publish(details) => LifecycleActionView::Publish(details@),
            LifecycleAction::Sleep { seconds } => LifecycleActionView::Sleep { seconds: *seconds },
            LifecycleAction::Fail => LifecycleActionView::Fail,
            LifecycleAction::Wait => LifecycleActionView::Wait,
        }
    }
}

/// The subscription in the phase `phase`, all else as in `state`.
pub open spec fn in_phase(state: Lifecycle, phase: Phase) -> Lifecycle {
    Lifecycle { phase, ..state }
}

/// Waiting for the next message.
pub open spec fn receive() -> LifecycleActionView {
    LifecycleActionView::Receive { timeout: STREAMING_TIMEOUT }
}

/// Where a recoverable failure leads: to the backoff, and to waiting out its delay.
pub open spec fn backed_off(state: Lifecycle) -> (Lifecycle, LifecycleActionView) {
    (in_phase(state, Phase::Backoff), LifecycleActionView::Sleep { seconds: BACKOFF_DELAY })
}

/// What follows a message once it has been handled. A commit is handed out and
/// remembered as the last one seen; a message without a commit, and one that cannot be
/// read, is passed over; an error frame ends the subscription for good.
pub open spec fn after_message(
    state: Lifecycle,
    outcome: Result<Option<CommitDetailsView>, StreamError>,
) -> (Lifecycle, LifecycleActionView) {
    if state.phase != Phase::Streaming {
        (state, LifecycleActionView::Wait)
    } else {
        match outcome {
            Ok(Some(details)) => (
                Lifecycle { last_seen: Some(details.seq), ..state },
                LifecycleActionView::Publish(details),
            ),
            Ok(None) => (state, receive()),
            Err(StreamError::UpstreamErrorFrame) => (
                in_phase(state, Phase::Terminated),
                LifecycleActionView::Fail,
            ),
            Err(_) => (state, receive()),
        }
    }
}

/// What follows `event` in `state`: the next state and what is to be done.
pub open spec fn step(state: Lifecycle, event: LifecycleEventView) -> (
    Lifecycle,
    LifecycleActionView,
) {
    match (state.phase, event) {
        (Phase::Terminated, _) => (state, LifecycleActionView::Fail),
        (Phase::Disconnected, LifecycleEventView::Started) => (
            in_phase(state, Phase::Connecting(ConnectStep::FetchingCursor)),
            LifecycleActionView::FetchCursor,
        ),
        (
            Phase::Connecting(ConnectStep::FetchingCursor),
            LifecycleEventView::CursorFetched(Some(cursor)),
        ) => (
            Lifecycle {
                phase: Phase::Connecting(ConnectStep::Opening),
                cursor: Some(cursor),
                ..state
            },
            LifecycleActionView::Connect { url: subscription_url_of(Some(cursor)) },
        ),
        (
            Phase::Connecting(ConnectStep::FetchingCursor),
            LifecycleEventView::CursorFetched(None),
        ) => (
            Lifecycle {
                phase: Phase::Connecting(ConnectStep::CreatingState),
                cursor: None,
                ..state
            },
            LifecycleActionView::CreateCursorState,
        ),
        (Phase::Connecting(ConnectStep::CreatingState), LifecycleEventView::StateCreated) => (
            in_phase(state, Phase::Connecting(ConnectStep::Opening)),
            LifecycleActionView::Connect { url: subscription_url_of(None) },
        ),
        (Phase::Connecting(ConnectStep::Opening), LifecycleEventView::Connected) => (
            in_phase(state, Phase::Streaming),
            receive(),
        ),
        (Phase::Connecting(_), LifecycleEventView::Failed) => backed_off(state),
        (Phase::Streaming, LifecycleEventView::Received(message)) => after_message(
            state,
            message_outcome(message),
        ),
        (Phase::Streaming, LifecycleEventView::Delivered) => (state, receive()),
        (Phase::Streaming, LifecycleEventView::Failed) => backed_off(state),
        (Phase::Streaming, LifecycleEventView::IdleTimeout) => backed_off(state),
        (Phase::Streaming, LifecycleEventView::Disconnected) => backed_off(state),
        (Phase::Backoff, LifecycleEventView::BackoffElapsed) => (
            in_phase(state, Phase::Connecting(ConnectStep::FetchingCursor)),
            LifecycleActionView::FetchCursor,
        ),
        _ => (state, LifecycleActionView::Wait),
    }
}

/// The views of a next state and its action.
pub open spec fn step_view(r: (Lifecycle, LifecycleAction)) -> (Lifecycle, LifecycleActionView) {
    (r.0, r.1@)
}

impl Lifecycle {
    /// A subscription that has not started.
    pub fn new() -> (state: Lifecycle)
        ensures
            state == (Lifecycle { phase: Phase::Disconnected, cursor: None, last_seen: None }),
    {
        Lifecycle { phase: Phase::Disconnected, cursor: None, last_seen: None }
    }

    fn enter(self, phase: Phase) -> (state: Lifecycle)
        ensures
            state == in_phase(self, phase),
    {
        Lifecycle { phase, cursor: self.cursor, last_seen: self.last_seen }
    }

    fn back_off(self) -> (r: (Lifecycle, LifecycleAction))
        ensures
            step_view(r) == backed_off(self),
    {
        (self.enter(Phase::Backoff), LifecycleAction::Sleep { seconds: BACKOFF_DELAY })
    }

    /// What follows a message of the stream once it has been handled with `outcome`.
    pub fn on_handled(self, outcome: Result<Option<CommitDetails>, StreamError>) -> (r: (
        Lifecycle,
        LifecycleAction,
    ))
        ensures
            step_view(r) == after_message(self, details_result_view(outcome)),
    {
        match self.phase {
            Phase::Streaming => {},
            _ => {
                return (self, LifecycleAction::Wait);
            },
        }
        match outcome {
            Ok(Some(details)) => (
                Lifecycle { phase: self.phase, cursor: self.cursor, last_seen: Some(details.seq) },
                LifecycleAction::Publish(details),
            ),
            Ok(None) => (self, LifecycleAction::Receive { timeout: STREAMING_TIMEOUT }),
            Err(StreamError::UpstreamErrorFrame) => (
                self.enter(Phase::Terminated),
                LifecycleAction::Fail,
            ),
            Err(_) => (self, LifecycleAction::Receive { timeout: STREAMING_TIMEOUT }),
        }
    }

    /// What follows `event`: the next state and what is to be done. A message that
    /// arrives while streaming is handled here, through [`handle_message`].
    pub fn on_event(self, event: LifecycleEvent) -> (r: (Lifecycle, LifecycleAction))
        ensures
            step_view(r) == step(self, event@),
    {
        match (self.phase, event) {
            (Phase::Terminated, _) => (self, LifecycleAction::Fail),
            (Phase::Disconnected, LifecycleEvent::Started) => (
                self.enter(Phase::Connecting(ConnectStep::FetchingCursor)),
                LifecycleAction::FetchCursor,
            ),
            (
                Phase::Connecting(ConnectStep::FetchingCursor),
                LifecycleEvent::CursorFetched(Some(cursor)),
            ) => (
                Lifecycle {
                    phase: Phase::Connecting(ConnectStep::Opening),
                    cursor: Some(cursor),
                    last_seen: self.last_seen,
                },
                LifecycleAction::Connect { url: subscription_url(Some(cursor)) },
            ),
            (
                Phase::Connecting(ConnectStep::FetchingCursor),
                LifecycleEvent::CursorFetched(None),
            ) => (
                Lifecycle {
                    phase: Phase::Connecting(ConnectStep::CreatingState),
                    cursor: None,
                    last_seen: self.last_seen,
                },
                LifecycleAction::CreateCursorState,
            ),
            (Phase::Connecting(ConnectStep::CreatingState), LifecycleEvent::StateCreated) => (
                self.enter(Phase::Connecting(ConnectStep::Opening)),
                LifecycleAction::Connect { url: subscription_url(None) },
            ),
            (Phase::Connecting(ConnectStep::Opening), LifecycleEvent::Connected) => (
                self.enter(Phase::Streaming),
                LifecycleAction::Receive { timeout: STREAMING_TIMEOUT },
            ),
            (Phase::Connecting(_), LifecycleEvent::Failed) => self.back_off(),
            (Phase::Streaming, LifecycleEvent::Received(message)) => {
                self.on_handled(handle_message(message.as_slice()))
            },
            (Phase::Streaming, LifecycleEvent::Delivered) => (
                self,
                LifecycleAction::Receive { timeout: STREAMING_TIMEOUT },
            ),
            (Phase::Streaming, LifecycleEvent::Failed) => self.back_off(),
            (Phase::Streaming, LifecycleEvent::IdleTimeout) => self.back_off(),
            (Phase::Streaming, LifecycleEvent::Disconnected) => self.back_off(),
            (Phase::Backoff, LifecycleEvent::BackoffElapsed) => (
                self.enter(Phase::Connecting(ConnectStep::FetchingCursor)),
                LifecycleAction::FetchCursor,
            ),
            _ => (self, LifecycleAction::Wait),
        }
    }
}

/// A stream that stalls is taken up again from the persisted cursor: the idle timeout
/// leads from streaming to the backoff, the end of the delay to connecting, and the
/// connection is then asked for at the address of the cursor that is read, whatever the
/// last commit seen was.
pub proof fn lemma_stalled_stream_resumes(state: Lifecycle, persisted: i64)
    requires
        state.phase == Phase::Streaming,
    ensures
        step(state, LifecycleEventView::IdleTimeout) == (
            in_phase(state, Phase::Backoff),
            LifecycleActionView::Sleep { seconds: BACKOFF_DELAY },
        ),
        step(in_phase(state, Phase::Backoff), LifecycleEventView::BackoffElapsed) == (
            in_phase(state, Phase::Connecting(ConnectStep::FetchingCursor)),
            LifecycleActionView::FetchCursor,
        ),
        step(
            in_phase(state, Phase::Connecting(ConnectStep::FetchingCursor)),
            LifecycleEventView::CursorFetched(Some(persisted)),
        ) == (
            Lifecycle {
                phase: Phase::Connecting(ConnectStep::Opening),
                cursor: Some(persisted),
                last_seen: state.last_seen,
            },
            LifecycleActionView::Connect { url: subscription_url_of(Some(persisted)) },
        ),
{
}

/// Once the upstream has ended the stream, nothing starts it again: whatever happens, the
/// subscription stays terminated and asks to give up.
pub proof fn lemma_terminated_is_final(state: Lifecycle, event: LifecycleEventView)
    requires
        state.phase == Phase::Terminated,
    ensures
        step(state, event) == (state, LifecycleActionView::Fail),
{
}

/// The cursor that the subscription resumes from is the one that was read from the
/// store: it changes on no event but the one that reports it, and never follows the
/// commits that the stream delivers.
pub proof fn lemma_cursor_follows_the_store_only(state: Lifecycle, event: LifecycleEventView)
    ensures
        step(state, event).0.cursor == (if state.phase == Phase::Connecting(
            ConnectStep::FetchingCursor,
        ) && event is CursorFetched {
            event->CursorFetched_0
        } else {
            state.cursor
        }),
{
}

} // verus!
