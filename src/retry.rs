//! Connection establishment to the message bus: a bounded number of
//! attempts, each with a time limit, with a fixed pause between them.
use vstd::prelude::*;

verus! {

/// The most connection attempts made.
pub const MAX_CONNECT_ATTEMPTS: u32 = 5;

/// The pause before another attempt, in seconds.
pub const RETRY_DELAY_SECS: u64 = 5;

/// The time limit of one attempt, in seconds.
pub const CONNECT_TIMEOUT_SECS: u64 = 20;

/// How one connection attempt ended.
#[derive(Debug, Clone, Copy, PartialEq, Eq, Structural)]
pub enum ConnectOutcome {
    Connected,
    /// The broker refused, or the connection failed.
    Failed,
    /// No answer within `CONNECT_TIMEOUT_SECS`.
    TimedOut,
}

/// What to do after an attempt.
#[derive(Debug, Clone, Copy, PartialEq, Eq, Structural)]
pub enum ConnectAction {
    /// Connected: go on with the session.
    Proceed,
    /// Wait this many seconds, then try again.
    RetryAfter(u64),
    /// No attempt is left: report the last failure.
    GiveUp,
}

/// Decides after attempt number `attempts` (counted from 1) that ended with
/// `outcome`.
pub fn connect_with_retry(attempts: u32, outcome: ConnectOutcome) -> (r: ConnectAction)
    ensures
        outcome == ConnectOutcome::Connected ==> r == ConnectAction::Proceed,
        outcome != ConnectOutcome::Connected && attempts >= MAX_CONNECT_ATTEMPTS ==> r
            == ConnectAction::GiveUp,
        outcome != ConnectOutcome::Connected && attempts < MAX_CONNECT_ATTEMPTS ==> r
            == ConnectAction::RetryAfter(RETRY_DELAY_SECS),
{
    match outcome {
        ConnectOutcome::Connected => ConnectAction::Proceed,
        _ => {
            if attempts >= MAX_CONNECT_ATTEMPTS {
                ConnectAction::GiveUp
            } else {
                ConnectAction::RetryAfter(RETRY_DELAY_SECS)
            }
        },
    }
}

} // verus!
