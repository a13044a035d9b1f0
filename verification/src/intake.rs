//! What the graph does with what it is told, step by step.
//!
//! A step is one call on the ledger, the watcher or the graph's own slot. Every entry here is the
//! exact list of them, in order, so that what is recorded, who is woken and whether anything is
//! decided at once can be read off the entry.

use crate::debt::HookDebt;
use vstd::prelude::*;

verus! {

/// One step of the graph's owner.
#[derive(Clone, Copy, Debug, PartialEq, Eq, Structural)]
pub enum GraphStep {
    /// A change of the scan universe was delivered under this fact.
    RecordChange(u64),
    /// The hub lost detail, identified by the loss itself. `horizon` says that what the hub can
    /// still deliver of its losses is read first.
    RecordLoss { token: Option<u64>, fact: u64, horizon: bool },
    /// A change no comparison can answer was delivered under this fact.
    RecordForced(u64),
    /// The fact stream stands at this level; nothing was delivered.
    ObserveLevel(u64),
    /// Marks up to a bound were placed for facts up to this one.
    PlaceMarks { mark_high: i64, fact: u64 },
    /// The decision is taken again in a moment.
    Hold,
    /// The marks' budget paid for an attempt.
    SpendMarkAttempt,
    /// A comparison answered every change up to this fact.
    AnswerChange(u64),
    /// A comparison answered the failure that was owed a retry.
    AnswerFailure,
    /// The hook's reply to the offer of this revision.
    HookHandled { revision: u64, handled: HookDebt },
    /// The offer of this revision was refused whole.
    HookRefused { revision: u64 },
    /// What the hook would not take is owed again.
    RecordHook(HookDebt),
    /// The hook refused a publication's offer and is left alone for a while.
    PaceHookRefusal,
    /// Marks up to the bound are consumed against the publication that observed this far.
    ConsumeMarks { observed: u64, bound: i64 },
    /// The watcher computes its deadline anew.
    Wake,
    /// Everything owed is decided on this thread.
    Drive,
    /// Marks the current publication observed are consumed.
    ConsumeObservedMarks,
    /// The marks' obligation is settled.
    SettleMarks,
    /// A failed reload reads as idle.
    ClearFailedReload,
    /// The builder of a claimed reload is started.
    SpawnReload,
}

/// Recorded without deciding on it: the entry, and the watcher woken to read the new standing.
pub open spec fn quiet(entry: GraphStep) -> Seq<GraphStep> {
    seq![entry, GraphStep::Wake]
}

/// Recorded and decided at once.
pub open spec fn deciding(entry: GraphStep) -> Seq<GraphStep> {
    seq![entry, GraphStep::Wake, GraphStep::Drive]
}

/// A loss as it is recorded: the hub's horizon is read only for a loss that has an identity, and
/// only where there is a hub to ask.
pub open spec fn loss(token: Option<u64>, fact: u64, has_hub: bool) -> GraphStep {
    GraphStep::RecordLoss { token, fact, horizon: token is Some && has_hub }
}

/// Marks placed on a graph that may still publish.
pub open spec fn placing(mark_high: i64, fact: u64) -> Seq<GraphStep> {
    seq![
        GraphStep::PlaceMarks { mark_high, fact },
        GraphStep::Wake,
        GraphStep::ConsumeObservedMarks,
        GraphStep::SettleMarks,
        GraphStep::Drive,
    ]
}

/// The position of the fact stream a build reads before it scans disk: every fact at or below it
/// reached the hub before the scan. A graph without a hub has no stream to fall behind.
pub fn observation(hub_position: Option<u64>) -> (position: u64)
    ensures
        position == (match hub_position {
            Some(position) => position,
            None => u64::MAX,
        }),
{
    match hub_position {
        Some(position) => position,
        None => u64::MAX,
    }
}

/// Record where the fact stream stands, without claiming anything was delivered. A level may leave
/// a comparison owed, but it issues no credit and opens no retry epoch.
pub fn observe_current_level(level: u64) -> (steps: Vec<GraphStep>)
    ensures
        steps@ == quiet(GraphStep::ObserveLevel(level)),
{
    vec![GraphStep::ObserveLevel(level), GraphStep::Wake]
}

/// Record a delivered change without deciding on it.
pub fn record_change_quietly(fact: u64) -> (steps: Vec<GraphStep>)
    ensures
        steps@ == quiet(GraphStep::RecordChange(fact)),
{
    vec![GraphStep::RecordChange(fact), GraphStep::Wake]
}

/// Record a loss of detail without deciding on it. The hub's horizon is read only for a loss that
/// has an identity, and only where there is a hub to ask.
pub fn record_loss_quietly(token: Option<u64>, fact: u64, has_hub: bool) -> (steps: Vec<GraphStep>)
    ensures
        steps@ == quiet(loss(token, fact, has_hub)),
{
    let horizon = token.is_some() && has_hub;
    vec![GraphStep::RecordLoss { token, fact, horizon }, GraphStep::Wake]
}

/// Record, without deciding on it, a change no comparison can answer.
pub fn record_forced_quietly(fact: u64) -> (steps: Vec<GraphStep>)
    ensures
        steps@ == quiet(GraphStep::RecordForced(fact)),
{
    vec![GraphStep::RecordForced(fact), GraphStep::Wake]
}

/// A change of the scan universe was delivered under `fact`: recorded and decided.
pub fn record_change(fact: u64) -> (steps: Vec<GraphStep>)
    ensures
        steps@ == deciding(GraphStep::RecordChange(fact)),
{
    vec![GraphStep::RecordChange(fact), GraphStep::Wake, GraphStep::Drive]
}

/// A reconcile reached this graph: recorded and decided.
pub fn record_loss(token: Option<u64>, fact: u64, has_hub: bool) -> (steps: Vec<GraphStep>)
    ensures
        steps@ == deciding(loss(token, fact, has_hub)),
{
    let horizon = token.is_some() && has_hub;
    vec![GraphStep::RecordLoss { token, fact, horizon }, GraphStep::Wake, GraphStep::Drive]
}

/// A change no comparison can answer was delivered under `fact`: recorded and decided.
pub fn record_forced(fact: u64) -> (steps: Vec<GraphStep>)
    ensures
        steps@ == deciding(GraphStep::RecordForced(fact)),
{
    vec![GraphStep::RecordForced(fact), GraphStep::Wake, GraphStep::Drive]
}

/// The lease could not be confirmed, so the decision waits — and the watcher is told: a hold moves
/// the next decision, and a watcher asleep on its slice would not see it.
pub fn hold_decision() -> (steps: Vec<GraphStep>)
    ensures
        steps@ == quiet(GraphStep::Hold),
{
    vec![GraphStep::Hold, GraphStep::Wake]
}

/// A request asked about this graph. All it may do is pull a recovery probe forward, and the
/// watcher is what runs it.
pub fn note_request(pulled_forward: bool) -> (steps: Vec<GraphStep>)
    ensures
        pulled_forward ==> steps@ == seq![GraphStep::Wake],
        !pulled_forward ==> steps@ == Seq::<GraphStep>::empty(),
{
    if pulled_forward {
        vec![GraphStep::Wake]
    } else {
        Vec::new()
    }
}

/// Marks up to `mark_high` were placed for facts up to `fact`.
///
/// Consumed by the first publication that observed their fact, whatever order the change, the
/// marks and the publications arrive in. Recorded even when ownership cannot be confirmed right
/// now: a mark dropped here is a re-render nobody will ever ask for again. A generation whose
/// lease is gone for good records nothing; the next one reads the same marks out of the store.
pub fn marks_placed(terminal: bool, mark_high: i64, fact: u64) -> (steps: Vec<GraphStep>)
    ensures
        terminal ==> steps@ == Seq::<GraphStep>::empty(),
        !terminal ==> steps@ == placing(mark_high, fact),
{
    if terminal {
        Vec::new()
    } else {
        vec![
            GraphStep::PlaceMarks { mark_high, fact },
            GraphStep::Wake,
            GraphStep::ConsumeObservedMarks,
            GraphStep::SettleMarks,
            GraphStep::Drive,
        ]
    }
}

/// Recover the marks a prior run left behind. They predate every fact this run's hub delivers, so
/// any publication that scanned disk consumes them.
pub fn consume_leftover_marks(terminal: bool, leftover_bound: i64) -> (steps: Vec<GraphStep>)
    ensures
        terminal ==> steps@ == Seq::<GraphStep>::empty(),
        !terminal ==> steps@ == placing(leftover_bound, 0),
{
    marks_placed(terminal, leftover_bound, 0)
}

/// What follows the ledger settling the marks' obligation: a build newly owed to them wakes the
/// watcher that will run it.
pub fn marks_settled(newly_owed: bool) -> (steps: Vec<GraphStep>)
    ensures
        newly_owed ==> steps@ == seq![GraphStep::Wake],
        !newly_owed ==> steps@ == Seq::<GraphStep>::empty(),
{
    if newly_owed {
        vec![GraphStep::Wake]
    } else {
        Vec::new()
    }
}

/// A step that moves what the ledger owes or when it next comes due.
pub open spec fn moves_the_standing(step: GraphStep) -> bool {
    match step {
        GraphStep::RecordChange(_) => true,
        GraphStep::RecordLoss { .. } => true,
        GraphStep::RecordForced(_) => true,
        GraphStep::ObserveLevel(_) => true,
        GraphStep::PlaceMarks { .. } => true,
        GraphStep::Hold => true,
        _ => false,
    }
}

/// Every recording and every hold is followed at once by the watcher being woken.
pub open spec fn wakes_after_recording(steps: Seq<GraphStep>) -> bool {
    forall|i: int|
        0 <= i < steps.len() && moves_the_standing(#[trigger] steps[i]) ==> i + 1 < steps.len()
            && steps[i + 1] == GraphStep::Wake
}

/// Nothing is decided by these steps.
pub open spec fn decides_nothing(steps: Seq<GraphStep>) -> bool {
    forall|i: int| 0 <= i < steps.len() ==> #[trigger] steps[i] != GraphStep::Drive
}

/// Every recording and every hold wakes the watcher, on every path that makes one.
pub proof fn law_every_recording_wakes_the_watcher(entry: GraphStep, mark_high: i64, fact: u64)
    ensures
        wakes_after_recording(quiet(entry)),
        wakes_after_recording(deciding(entry)),
        wakes_after_recording(placing(mark_high, fact)),
{
}

/// A quiet recording decides nothing, and the deciding one is the quiet one followed by its
/// decision: both leave the same record.
pub proof fn law_a_quiet_recording_decides_nothing(entry: GraphStep)
    requires
        entry != GraphStep::Drive,
    ensures
        decides_nothing(quiet(entry)),
        deciding(entry) == quiet(entry).push(GraphStep::Drive),
{
    assert(deciding(entry) =~= quiet(entry).push(GraphStep::Drive));
}

} // verus!
