//! The job queue and result bus: key names, and the order in which a
//! submitter waits for a result (subscribe first, then look for a stored
//! result, then take the next message).
use vstd::prelude::*;
use crate::text::concat2;

verus! {

/// How long a stored result lives, in seconds.
pub const RESULT_TTL_SECS: u64 = 3600;

/// The list that holds queued jobs.
pub fn job_queue_key() -> (r: String)
    ensures
        r@ == "turbo:jobs"@,
{
    String::from_str("turbo:jobs")
}

/// The channel on which job `id`'s result is published.
pub fn job_channel(id: &str) -> (r: String)
    ensures
        r@ == "turbo:job:"@ + id@,
{
    concat2("turbo:job:", id)
}

/// The key under which job `id`'s result is stored.
pub fn result_key(id: &str) -> (r: String)
    ensures
        r@ == "turbo:result:"@ + id@,
{
    concat2("turbo:result:", id)
}

/// Where a wait for a result stands.
#[derive(Clone, Copy, Debug, PartialEq, Eq, Structural)]
pub enum WaitPhase {
    Start,
    Subscribing,
    Reading,
    Listening,
    Done,
}

/// What came of the waiter's last action.
pub enum WaitEvent {
    /// The action succeeded without a value.
    Done,
    /// The stored result, if any.
    Stored(Option<String>),
    /// A message arrived on the channel.
    Message(String),
    /// The action failed, with this message.
    Failed(String),
}

/// What the waiter must do next.
pub enum WaitAction {
    /// Subscribe to this channel.
    Subscribe(String),
    /// Read this key.
    Read(String),
    /// Take the next message of the subscription.
    Listen,
    /// The wait is over with this payload.
    Deliver(String),
    /// The wait is over with this error.
    Fail(String),
    /// Nothing is left to do.
    Idle,
}

/// The text an action carries.
pub open spec fn carries(a: WaitAction, t: Seq<char>) -> bool {
    match a {
        WaitAction::Subscribe(c) => c@ == t,
        WaitAction::Read(k) => k@ == t,
        WaitAction::Deliver(q) => q@ == t,
        WaitAction::Fail(f) => f@ == t,
        _ => false,
    }
}

/// The step of a wait for job `id` from `phase` on `e`.
pub open spec fn wait_spec(id: Seq<char>, phase: WaitPhase, e: WaitEvent, next: WaitPhase, a: WaitAction) -> bool {
    match phase {
        WaitPhase::Start => next == WaitPhase::Subscribing && a is Subscribe && carries(a, "turbo:job:"@ + id),
        WaitPhase::Subscribing => match e {
            WaitEvent::Done => next == WaitPhase::Reading && a is Read && carries(a, "turbo:result:"@ + id),
            WaitEvent::Failed(m) => next == WaitPhase::Done && a is Fail && carries(a, m@),
            _ => next == WaitPhase::Done && a is Fail,
        },
        WaitPhase::Reading => match e {
            WaitEvent::Stored(Some(p)) => next == WaitPhase::Done && a is Deliver && carries(a, p@),
            WaitEvent::Stored(None) => next == WaitPhase::Listening && a is Listen,
            WaitEvent::Failed(m) => next == WaitPhase::Done && a is Fail && carries(a, m@),
            _ => next == WaitPhase::Done && a is Fail,
        },
        WaitPhase::Listening => match e {
            WaitEvent::Message(p) => next == WaitPhase::Done && a is Deliver && carries(a, p@),
            WaitEvent::Failed(m) => next == WaitPhase::Done && a is Fail && carries(a, m@),
            _ => next == WaitPhase::Done && a is Fail,
        },
        WaitPhase::Done => next == WaitPhase::Done && a is Idle,
    }
}

/// One step of waiting for job `id`'s result.
pub fn wait_step(id: &str, phase: WaitPhase, e: WaitEvent) -> (r: (WaitPhase, WaitAction))
    ensures
        wait_spec(id@, phase, e, r.0, r.1),
{
    match phase {
        WaitPhase::Start => (WaitPhase::Subscribing, WaitAction::Subscribe(job_channel(id))),
        WaitPhase::Subscribing => match e {
            WaitEvent::Done => (WaitPhase::Reading, WaitAction::Read(result_key(id))),
            WaitEvent::Failed(m) => (WaitPhase::Done, WaitAction::Fail(m)),
            _ => (WaitPhase::Done, WaitAction::Fail(String::from_str("unexpected event"))),
        },
        WaitPhase::Reading => match e {
            WaitEvent::Stored(Some(p)) => (WaitPhase::Done, WaitAction::Deliver(p)),
            WaitEvent::Stored(None) => (WaitPhase::Listening, WaitAction::Listen),
            WaitEvent::Failed(m) => (WaitPhase::Done, WaitAction::Fail(m)),
            _ => (WaitPhase::Done, WaitAction::Fail(String::from_str("unexpected event"))),
        },
        WaitPhase::Listening => match e {
            WaitEvent::Message(p) => (WaitPhase::Done, WaitAction::Deliver(p)),
            WaitEvent::Failed(m) => (WaitPhase::Done, WaitAction::Fail(m)),
            _ => (WaitPhase::Done, WaitAction::Fail(String::from_str("Stream ended"))),
        },
        WaitPhase::Done => (WaitPhase::Done, WaitAction::Idle),
    }
}

} // verus!
