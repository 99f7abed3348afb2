//! The supervisor of the live head subscription, as a state machine: the
//! caller performs each action and hands back what happened.
use vstd::prelude::*;

verus! {

/// Seconds to wait before a new subscription after a failure or a disconnect.
pub const RECONNECT_DELAY_SECS: u64 = 10;

#[derive(Clone, Copy, Debug, PartialEq, Eq)]
pub enum SubscriberState {
    Connecting,
    Subscribed,
    Disconnected,
}

#[derive(Clone, Copy, Debug, PartialEq, Eq)]
pub enum SubscriberEvent {
    /// The subscription to new heads is open.
    Opened,
    /// The subscription could not be opened.
    OpenFailed,
    /// A new head arrived, with its number if it carries one.
    Header(Option<u64>),
    /// The stream yielded an error instead of a head.
    HeaderFailed,
    /// The stream ended.
    StreamEnded,
    /// The reconnect delay has passed.
    DelayElapsed,
}

#[derive(Clone, Copy, Debug, PartialEq, Eq)]
pub enum SubscriberAction {
    /// Open a subscription to new heads.
    Subscribe,
    /// Start an independent task that assembles and stores this block, then
    /// adds it to the indexed set; keep reading the stream.
    ProcessBlock(i64),
    /// Read the next item of the stream.
    AwaitNext,
    /// Wait this many seconds.
    Sleep(u64),
}

/// What the supervisor does in a state when nothing changes it.
pub open spec fn standing_action(s: SubscriberState) -> SubscriberAction {
    match s {
        SubscriberState::Connecting => SubscriberAction::Subscribe,
        SubscriberState::Subscribed => SubscriberAction::AwaitNext,
        SubscriberState::Disconnected => SubscriberAction::Sleep(RECONNECT_DELAY_SECS),
    }
}

/// The next state and action. A failure to open and the end of the stream
/// both lead to a fixed delay and then a new subscription, with no bound on
/// the number of attempts; each head with a number that fits an `i64` starts
/// one block task; events that do not belong to the state change nothing.
pub open spec fn next(s: SubscriberState, e: SubscriberEvent) -> (SubscriberState, SubscriberAction) {
    match (s, e) {
        (SubscriberState::Connecting, SubscriberEvent::Opened) => (SubscriberState::Subscribed, SubscriberAction::AwaitNext),
        (SubscriberState::Connecting, SubscriberEvent::OpenFailed) => (SubscriberState::Disconnected, SubscriberAction::Sleep(RECONNECT_DELAY_SECS)),
        (SubscriberState::Subscribed, SubscriberEvent::Header(Some(n))) => if n <= i64::MAX as u64 {
            (SubscriberState::Subscribed, SubscriberAction::ProcessBlock(n as i64))
        } else {
            (SubscriberState::Subscribed, SubscriberAction::AwaitNext)
        },
        (SubscriberState::Subscribed, SubscriberEvent::StreamEnded) => (SubscriberState::Disconnected, SubscriberAction::Sleep(RECONNECT_DELAY_SECS)),
        (SubscriberState::Disconnected, SubscriberEvent::DelayElapsed) => (SubscriberState::Connecting, SubscriberAction::Subscribe),
        _ => (s, standing_action(s)),
    }
}

/// Takes one step of the supervisor.
pub fn step(state: SubscriberState, event: SubscriberEvent) -> (r: (SubscriberState, SubscriberAction))
    ensures
        r == next(state, event),
{
    match (state, event) {
        (SubscriberState::Connecting, SubscriberEvent::Opened) => (SubscriberState::Subscribed, SubscriberAction::AwaitNext),
        (SubscriberState::Connecting, SubscriberEvent::OpenFailed) => (SubscriberState::Disconnected, SubscriberAction::Sleep(RECONNECT_DELAY_SECS)),
        (SubscriberState::Subscribed, SubscriberEvent::Header(Some(n))) => if n <= i64::MAX as u64 {
            (SubscriberState::Subscribed, SubscriberAction::ProcessBlock(n as i64))
        } else {
            (SubscriberState::Subscribed, SubscriberAction::AwaitNext)
        },
        (SubscriberState::Subscribed, SubscriberEvent::StreamEnded) => (SubscriberState::Disconnected, SubscriberAction::Sleep(RECONNECT_DELAY_SECS)),
        (SubscriberState::Disconnected, SubscriberEvent::DelayElapsed) => (SubscriberState::Connecting, SubscriberAction::Subscribe),
        (SubscriberState::Connecting, _) => (state, SubscriberAction::Subscribe),
        (SubscriberState::Subscribed, _) => (state, SubscriberAction::AwaitNext),
        (SubscriberState::Disconnected, _) => (state, SubscriberAction::Sleep(RECONNECT_DELAY_SECS)),
    }
}

/// The supervisor has no final state: from every state, each event leads to
/// a next action, and a lost subscription always leads, after the delay, to a
/// new attempt to subscribe.
pub proof fn lemma_always_reconnects(s: SubscriberState, e: SubscriberEvent)
    ensures
        next(SubscriberState::Subscribed, SubscriberEvent::StreamEnded) == (
        SubscriberState::Disconnected,
        SubscriberAction::Sleep(RECONNECT_DELAY_SECS),
        ),
        next(SubscriberState::Connecting, SubscriberEvent::OpenFailed) == (
        SubscriberState::Disconnected,
        SubscriberAction::Sleep(RECONNECT_DELAY_SECS),
        ),
        next(SubscriberState::Disconnected, SubscriberEvent::DelayElapsed) == (
        SubscriberState::Connecting,
        SubscriberAction::Subscribe,
        ),
        next(s, e).1 == standing_action(next(s, e).0) || next(s, e).1 is ProcessBlock,
{
}

} // verus!
