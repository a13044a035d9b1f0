//! Waits on the graph's state that end.
//!
//! A wait looks at its condition before it looks at the clock, so that one that holds is never
//! reported as late; and one that runs out says what it waited for and what it saw.

use crate::inner::Inner;
use crate::types::GraphStatus;
use vstd::prelude::*;

verus! {

/// How often a bounded wait reads the state it is waiting on, in nanoseconds.
pub const WAIT_POLL: u64 = 10_000_000;

/// The ceiling of a wait that names none, in nanoseconds.
pub const WAIT_CEILING: u64 = 30_000_000_000;

/// What a wait does next.
#[derive(Clone, Copy, Debug, PartialEq, Eq, Structural)]
pub enum WaitStep {
    Met,
    TimedOut,
    /// Look again after this long.
    Sleep(u64),
}

/// What a wait whose condition reads like this does at this moment.
pub open spec fn waits_on(holds: bool, now: u64, deadline: u64) -> WaitStep {
    if holds {
        WaitStep::Met
    } else if now >= deadline {
        WaitStep::TimedOut
    } else {
        WaitStep::Sleep(WAIT_POLL)
    }
}

/// What a wait whose condition reads like this does at this moment.
pub fn wait_step(holds: bool, now: u64, deadline: u64) -> (step: WaitStep)
    ensures
        step == waits_on(holds, now, deadline),
{
    if holds {
        WaitStep::Met
    } else if now < deadline {
        WaitStep::Sleep(WAIT_POLL)
    } else {
        WaitStep::TimedOut
    }
}

/// The message of a wait that ran out: its ceiling, what it waited for and the state it observed.
pub fn timed_out_message(ceiling: &str, what: &str, summary: &str) -> (message: String)
    ensures
        message@ == "timed out after "@ + ceiling@ + " waiting for "@ + what@ + "; "@ + summary@,
{
    let mut message = String::from_str("timed out after ");
    message.append(ceiling);
    message.append(" waiting for ");
    message.append(what);
    message.append("; ");
    message.append(summary);
    message
}

/// Where a wait for a published graph stands.
#[derive(Clone, Copy, Debug, PartialEq, Eq, Structural)]
pub enum LoadVerdict {
    Ready,
    /// The load failed, and no wait will see it published.
    Failed,
    Pending,
}

/// Where a wait for a published graph stands. The status alone is read: what a publication's pass
/// leaves behind comes later.
pub fn load_verdict(inner: &Inner) -> (verdict: LoadVerdict)
    ensures
        verdict is Ready <==> inner.status is Ready,
        verdict is Failed <==> inner.status is Failed,
{
    match &inner.status {
        GraphStatus::Ready { .. } => LoadVerdict::Ready,
        GraphStatus::Failed(_) => LoadVerdict::Failed,
        _ => LoadVerdict::Pending,
    }
}

/// The message of a wait for a graph that will not come.
pub fn load_failed_message(failure: &str, summary: &str) -> (message: String)
    ensures
        message@ == "graph load failed: "@ + failure@ + "; "@ + summary@,
{
    let mut message = String::from_str("graph load failed: ");
    message.append(failure);
    message.append("; ");
    message.append(summary);
    message
}

/// A bounded wait ends: it goes on only before its deadline, by a pause that is not empty, and it
/// times out only over a condition that does not hold.
pub proof fn law_a_bounded_wait_ends(holds: bool, now: u64, deadline: u64)
    ensures
        waits_on(holds, now, deadline) matches WaitStep::Sleep(pause) ==> now < deadline && pause > 0,
        waits_on(holds, now, deadline) is TimedOut ==> !holds && now >= deadline,
        waits_on(holds, now, deadline) is Met <==> holds,
{
}

} // verus!
