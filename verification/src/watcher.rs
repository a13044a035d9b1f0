//! The graph's own drift owner.
//!
//! The watcher reads a hub cursor of its own, subscribed before the graph's first scan, so the
//! graph's drift has an owner in every mode. It is also the alarm for owed work that waits for a
//! moment: nothing else wakes the graph when that moment comes.
//!
//! It records and does not decide where it records: the first build of an idle graph is not its to
//! take. What it decides, it decides at its alarm, through the executor that cannot take that build.

use crate::intake;
use crate::intake::GraphStep;
use crate::protocol;
use crate::protocol::Protocol;
use crate::signals;
use vstd::prelude::*;

verus! {

/// The longest the watcher waits for the hub before it looks at its stop and its alarms again.
pub const WAIT_SLICE: u64 = 30_000_000_000;

/// How long one readiness wait lasts before the watcher comes up to look at its stop.
pub const READINESS_SLICE: u64 = 1_000_000_000;

/// Whether the watcher leaves, by what may be asked while the hub is holding its own lock.
pub fn leaves_without_asking_the_hub(stopped: bool, terminal: bool) -> (leaves: bool)
    ensures
        leaves == (stopped || terminal),
{
    stopped || terminal
}

/// Whether the watcher leaves.
pub fn must_leave(hub_closing: bool, stopped: bool, terminal: bool) -> (leaves: bool)
    ensures
        leaves == (hub_closing || stopped || terminal),
{
    hub_closing || leaves_without_asking_the_hub(stopped, terminal)
}

/// How long a wait that ends with the owed work's moment may last.
pub open spec fn wait_until_due(wake_at: Option<u64>, now: u64) -> u64 {
    match wake_at {
        Some(due) if signals::remaining(due, now) < WAIT_SLICE => signals::remaining(due, now),
        _ => WAIT_SLICE,
    }
}

/// How long the next wait may last: the slice, or less when owed work comes due sooner.
pub fn alarm_wait(wake_at: Option<u64>, now: u64) -> (wait: u64)
    ensures
        wait == wait_until_due(wake_at, now),
{
    match wake_at {
        Some(due) => {
            let left: u64 = due.saturating_sub(now);
            if left < WAIT_SLICE {
                left
            } else {
                WAIT_SLICE
            }
        },
        None => WAIT_SLICE,
    }
}

/// One step of applying a batch.
#[derive(Clone, Copy, Debug, PartialEq, Eq, Structural)]
pub enum WatchStep {
    /// A step of the graph's owner.
    Graph(GraphStep),
    RefreshAdvisory,
    /// The batch is given back to the hub.
    Acknowledge,
}

/// What the hub delivered, as the watcher reads it.
#[derive(Clone, Copy, Debug, PartialEq, Eq, Structural)]
pub struct Batch {
    /// The position of the fact stream it was delivered under.
    pub fact: u64,
    /// Detail was lost: anything may have changed, the config included.
    pub rescan_required: bool,
    /// The identity of that loss.
    pub loss_token: Option<u64>,
    /// It carries entries.
    pub has_entries: bool,
    /// One of them touches what a scan of the workspace would list.
    pub universe: bool,
    /// One of them is an input of the project.
    pub project: bool,
}

pub open spec fn as_steps(steps: Seq<GraphStep>) -> Seq<WatchStep> {
    steps.map_values(|step: GraphStep| WatchStep::Graph(step))
}

/// Lost detail: a forced reload covers both a drift and a changed config, and no comparison can
/// answer a loss.
pub open spec fn loss_applied(token: Option<u64>, fact: u64, has_hub: bool) -> Seq<WatchStep> {
    as_steps(intake::quiet(intake::loss(token, fact, has_hub))).push(WatchStep::RefreshAdvisory)
}

/// Delivered entries: a change of the universe is recorded, and so is one of the project, which no
/// comparison can answer.
pub open spec fn entries_applied(universe: bool, project: bool, fact: u64) -> Seq<WatchStep> {
    let changed = if universe {
        as_steps(intake::quiet(GraphStep::RecordChange(fact)))
    } else {
        Seq::empty()
    };
    let moved = if project {
        as_steps(intake::quiet(GraphStep::RecordForced(fact))).push(WatchStep::RefreshAdvisory)
    } else {
        Seq::empty()
    };
    changed + moved
}

/// What a batch leads to.
pub open spec fn batch_applied(batch: Batch, has_hub: bool) -> Seq<WatchStep> {
    let recorded = if batch.rescan_required {
        loss_applied(batch.loss_token, batch.fact, has_hub)
    } else if batch.has_entries {
        entries_applied(batch.universe, batch.project, batch.fact)
    } else {
        Seq::empty()
    };
    recorded.push(WatchStep::Acknowledge)
}

fn push_all(steps: &mut Vec<WatchStep>, recorded: Vec<GraphStep>)
    ensures
        final(steps)@ == old(steps)@ + as_steps(recorded@),
{
    let mut i: usize = 0;
    let ghost before = steps@;
    assert(as_steps(recorded@.take(0)) =~= Seq::<WatchStep>::empty());
    while i < recorded.len()
        invariant
            i <= recorded@.len(),
            steps@ == before + as_steps(recorded@.take(i as int)),
        decreases recorded@.len() - i,
    {
        steps.push(WatchStep::Graph(recorded[i]));
        i += 1;
        assert(as_steps(recorded@.take(i as int)) =~= as_steps(recorded@.take(i - 1)).push(
            WatchStep::Graph(recorded@[i - 1]),
        ));
    }
    assert(recorded@.take(recorded@.len() as int) =~= recorded@);
}

/// Apply a loss of detail.
pub fn apply_rescan(token: Option<u64>, fact: u64, has_hub: bool) -> (steps: Vec<WatchStep>)
    ensures
        steps@ == loss_applied(token, fact, has_hub),
{
    let mut steps: Vec<WatchStep> = Vec::new();
    push_all(&mut steps, intake::record_loss_quietly(token, fact, has_hub));
    steps.push(WatchStep::RefreshAdvisory);
    assert(steps@ =~= loss_applied(token, fact, has_hub));
    steps
}

/// Apply delivered entries.
pub fn apply(universe: bool, project: bool, fact: u64) -> (steps: Vec<WatchStep>)
    ensures
        steps@ == entries_applied(universe, project, fact),
{
    let mut steps: Vec<WatchStep> = Vec::new();
    if universe {
        push_all(&mut steps, intake::record_change_quietly(fact));
    }
    if project {
        push_all(&mut steps, intake::record_forced_quietly(fact));
        steps.push(WatchStep::RefreshAdvisory);
    }
    assert(steps@ =~= entries_applied(universe, project, fact));
    steps
}

/// Record a batch, and give it back once it is recorded.
pub fn drain(batch: Batch, has_hub: bool) -> (steps: Vec<WatchStep>)
    ensures
        steps@ == batch_applied(batch, has_hub),
{
    let mut steps = if batch.rescan_required {
        apply_rescan(batch.loss_token, batch.fact, has_hub)
    } else if batch.has_entries {
        apply(batch.universe, batch.project, batch.fact)
    } else {
        Vec::new()
    };
    steps.push(WatchStep::Acknowledge);
    steps
}

/// Every batch is given back exactly once, after everything it led to, and nothing of it is decided
/// where it is recorded.
pub proof fn law_the_watcher_records_and_does_not_decide(batch: Batch, has_hub: bool)
    ensures
        ({
            let steps = batch_applied(batch, has_hub);
            &&& steps.len() > 0
            &&& steps.last() == WatchStep::Acknowledge
            &&& forall|i: int|
                0 <= i < steps.len() - 1 ==> #[trigger] steps[i] != WatchStep::Acknowledge
            &&& forall|i: int|
                0 <= i < steps.len() ==> #[trigger] steps[i] != WatchStep::Graph(GraphStep::Drive)
        }),
{
}

/// Every recording the watcher makes wakes it to compute its deadline anew.
pub proof fn law_every_watched_recording_wakes(batch: Batch, has_hub: bool, i: int)
    requires
        0 <= i < batch_applied(batch, has_hub).len(),
        batch_applied(batch, has_hub)[i] matches WatchStep::Graph(step)
            && intake::moves_the_standing(step),
    ensures
        i + 1 < batch_applied(batch, has_hub).len(),
        batch_applied(batch, has_hub)[i + 1] == WatchStep::Graph(GraphStep::Wake),
{
}

/// The advisory is refreshed exactly where the config may have changed: by a loss of detail or a
/// delivered input of the project.
pub proof fn law_the_advisory_follows_the_config(batch: Batch, has_hub: bool)
    ensures
        batch_applied(batch, has_hub).contains(WatchStep::RefreshAdvisory) <==> batch.rescan_required
            || (batch.has_entries && batch.project),
{
    let steps = batch_applied(batch, has_hub);
    if batch.rescan_required {
        assert(steps[2] == WatchStep::RefreshAdvisory);
    } else if batch.has_entries && batch.project {
        let at: int = if batch.universe {
            4
        } else {
            2
        };
        assert(steps[at] == WatchStep::RefreshAdvisory);
    }
}

/// Where in its life the watcher looks whether it must leave.
#[derive(Clone, Copy, Debug, PartialEq, Eq, Structural)]
pub enum Checkpoint {
    /// Before each wait for the hub to settle.
    Settling,
    /// After the first observation.
    Observed,
    /// At the start of a turn.
    Turn,
    /// After the alarms.
    Rung,
    /// After the wait.
    Waited,
}

/// What the watcher wants done.
#[derive(Clone, Copy, Debug, PartialEq, Eq, Structural)]
pub enum WatchAsk {
    /// The hub's generation, before the first observation.
    ReadGeneration,
    /// Whether it must leave.
    Leave(Checkpoint),
    /// Wait for the hub to settle, for a readiness slice.
    AwaitReadiness,
    /// Record what was delivered, by [`drain`]. `first` says that nothing was observed before.
    Drain { first: bool },
    /// Whether the graph is idle or disabled.
    ReadIdle,
    /// Record where the fact stream stands.
    ObserveLevel,
    RefreshAdvisory,
    /// The watcher runs: every delivered change reaches the graph.
    SetRunning,
    /// Take the ask a request left.
    TakeAsk,
    /// Answer it.
    EnsureLoading,
    /// Drive everything owed but the first build.
    DriveWithoutTheFirstBuild,
    /// Take the continuation latch.
    TakeContinuation,
    /// Read the alarm counter.
    SampleAlarms { continuing: bool },
    /// When owed work next comes due, and the clock.
    ReadDue { alarms: u64 },
    /// Wait for a change, an alarm or a latch.
    Wait { generation: u64, alarms: u64, wait: u64 },
    /// The watcher left.
    SetStopped,
    /// Its cursor is given back.
    Unsubscribe,
    /// And the comparison's: the observation is over.
    ReleaseScanCursor,
    /// The advisory has nobody to keep it current.
    AbandonAdvisory,
    /// The watcher counts as gone: only now, with its advisory handed back.
    LeaveOwners,
    Done,
}

#[derive(Clone, Copy, Debug, PartialEq, Eq, Structural)]
pub enum WatchReply {
    Generation(u64),
    Leave(bool),
    /// Whether the hub has settled: armed, or failed for good.
    Settled(bool),
    Idle(bool),
    Asked(bool),
    Latched(bool),
    Alarms(u64),
    Due { wake_at: Option<u64>, now: u64 },
    Finished,
}

/// The watcher's life.
#[derive(Clone, Copy, Debug, PartialEq, Eq, Structural)]
pub struct Watcher {
    /// The hub's generation the next wait starts from.
    pub generation: u64,
    pub ask: WatchAsk,
}

impl Watcher {
    pub open spec fn begun() -> Watcher {
        Watcher { generation: 0, ask: WatchAsk::ReadGeneration }
    }

    pub open spec fn asking(self, ask: WatchAsk) -> Watcher {
        Watcher { ask, ..self }
    }

    /// What follows a checkpoint the watcher stays at.
    pub open spec fn stayed(self, checkpoint: Checkpoint) -> Watcher {
        self.asking(
            match checkpoint {
                Checkpoint::Settling => WatchAsk::AwaitReadiness,
                Checkpoint::Observed => WatchAsk::SetRunning,
                Checkpoint::Turn => WatchAsk::TakeAsk,
                Checkpoint::Rung => WatchAsk::TakeContinuation,
                Checkpoint::Waited => WatchAsk::Drain { first: false },
            },
        )
    }

    pub open spec fn replied(self, reply: WatchReply) -> Watcher {
        match (self.ask, reply) {
            (WatchAsk::ReadGeneration, WatchReply::Generation(generation)) => Watcher {
                generation,
                ask: WatchAsk::Leave(Checkpoint::Settling),
            },
            (WatchAsk::Leave(checkpoint), WatchReply::Leave(leave)) => {
                if leave {
                    self.asking(WatchAsk::SetStopped)
                } else {
                    self.stayed(checkpoint)
                }
            },
            (WatchAsk::AwaitReadiness, WatchReply::Settled(settled)) => {
                if settled {
                    self.asking(WatchAsk::Drain { first: true })
                } else {
                    self.asking(WatchAsk::Leave(Checkpoint::Settling))
                }
            },
            (WatchAsk::Drain { first }, WatchReply::Finished) => {
                if first {
                    self.asking(WatchAsk::ReadIdle)
                } else {
                    self.asking(WatchAsk::Leave(Checkpoint::Turn))
                }
            },
            (WatchAsk::ReadIdle, WatchReply::Idle(idle)) => {
                if idle {
                    self.asking(WatchAsk::RefreshAdvisory)
                } else {
                    self.asking(WatchAsk::ObserveLevel)
                }
            },
            (WatchAsk::ObserveLevel, WatchReply::Finished) => self.asking(WatchAsk::RefreshAdvisory),
            (WatchAsk::RefreshAdvisory, WatchReply::Finished) => self.asking(
                WatchAsk::Leave(Checkpoint::Observed),
            ),
            (WatchAsk::SetRunning, WatchReply::Finished) => self.asking(
                WatchAsk::Leave(Checkpoint::Turn),
            ),
            (WatchAsk::TakeAsk, WatchReply::Asked(asked)) => {
                if asked {
                    self.asking(WatchAsk::EnsureLoading)
                } else {
                    self.asking(WatchAsk::DriveWithoutTheFirstBuild)
                }
            },
            (WatchAsk::EnsureLoading, WatchReply::Finished) => self.asking(
                WatchAsk::DriveWithoutTheFirstBuild,
            ),
            (WatchAsk::DriveWithoutTheFirstBuild, WatchReply::Finished) => self.asking(
                WatchAsk::Leave(Checkpoint::Rung),
            ),
            (WatchAsk::TakeContinuation, WatchReply::Latched(continuing)) => self.asking(
                WatchAsk::SampleAlarms { continuing },
            ),
            (WatchAsk::SampleAlarms { continuing }, WatchReply::Alarms(alarms)) => {
                if continuing {
                    self.asking(WatchAsk::Wait { generation: self.generation, alarms, wait: 0 })
                } else {
                    self.asking(WatchAsk::ReadDue { alarms })
                }
            },
            (WatchAsk::ReadDue { alarms }, WatchReply::Due { wake_at, now }) => self.asking(
                WatchAsk::Wait {
                    generation: self.generation,
                    alarms,
                    wait: wait_until_due(wake_at, now),
                },
            ),
            (WatchAsk::Wait { .. }, WatchReply::Generation(generation)) => Watcher {
                generation,
                ask: WatchAsk::Leave(Checkpoint::Waited),
            },
            (WatchAsk::SetStopped, WatchReply::Finished) => self.asking(WatchAsk::Unsubscribe),
            (WatchAsk::Unsubscribe, WatchReply::Finished) => self.asking(
                WatchAsk::ReleaseScanCursor,
            ),
            (WatchAsk::ReleaseScanCursor, WatchReply::Finished) => self.asking(
                WatchAsk::AbandonAdvisory,
            ),
            (WatchAsk::AbandonAdvisory, WatchReply::Finished) => self.asking(WatchAsk::LeaveOwners),
            (_, _) => self.asking(WatchAsk::Done),
        }
    }

    /// A watcher that has its cursor.
    pub fn begin() -> (watcher: Watcher)
        ensures
            watcher == Watcher::begun(),
    {
        Watcher { generation: 0, ask: WatchAsk::ReadGeneration }
    }

    fn stay(self, checkpoint: Checkpoint) -> (next: Watcher)
        ensures
            next == self.stayed(checkpoint),
    {
        let ask = match checkpoint {
            Checkpoint::Settling => WatchAsk::AwaitReadiness,
            Checkpoint::Observed => WatchAsk::SetRunning,
            // Act, then wait: what the first observation recorded is ripe now, and a debt that is
            // ripe names no moment for the wait to end at.
            Checkpoint::Turn => WatchAsk::TakeAsk,
            Checkpoint::Rung => WatchAsk::TakeContinuation,
            Checkpoint::Waited => WatchAsk::Drain { first: false },
        };
        Watcher { ask, ..self }
    }

    /// Take the reply to what was asked, and say what comes next.
    pub fn reply(self, reply: WatchReply) -> (next: Watcher)
        requires
            self.takes(reply),
        ensures
            next == self.replied(reply),
    {
        match (self.ask, reply) {
            (WatchAsk::ReadGeneration, WatchReply::Generation(generation)) => Watcher {
                generation,
                ask: WatchAsk::Leave(Checkpoint::Settling),
            },
            (WatchAsk::Leave(checkpoint), WatchReply::Leave(leave)) => {
                if leave {
                    Watcher { ask: WatchAsk::SetStopped, ..self }
                } else {
                    self.stay(checkpoint)
                }
            },
            (WatchAsk::AwaitReadiness, WatchReply::Settled(settled)) => {
                let ask = if settled {
                    WatchAsk::Drain { first: true }
                } else {
                    WatchAsk::Leave(Checkpoint::Settling)
                };
                Watcher { ask, ..self }
            },
            (WatchAsk::Drain { first }, WatchReply::Finished) => {
                let ask = if first {
                    WatchAsk::ReadIdle
                } else {
                    WatchAsk::Leave(Checkpoint::Turn)
                };
                Watcher { ask, ..self }
            },
            (WatchAsk::ReadIdle, WatchReply::Idle(idle)) => {
                let ask = if idle {
                    // The boot's first build scans after this point anyway.
                    WatchAsk::RefreshAdvisory
                } else {
                    // A build already under way may have scanned before the watch armed. A level,
                    // and not a delivery: nothing arrived here.
                    WatchAsk::ObserveLevel
                };
                Watcher { ask, ..self }
            },
            (WatchAsk::ObserveLevel, WatchReply::Finished) => Watcher {
                ask: WatchAsk::RefreshAdvisory,
                ..self
            },
            (WatchAsk::RefreshAdvisory, WatchReply::Finished) => Watcher {
                ask: WatchAsk::Leave(Checkpoint::Observed),
                ..self
            },
            (WatchAsk::SetRunning, WatchReply::Finished) => Watcher {
                ask: WatchAsk::Leave(Checkpoint::Turn),
                ..self
            },
            (WatchAsk::TakeAsk, WatchReply::Asked(asked)) => {
                let ask = if asked {
                    WatchAsk::EnsureLoading
                } else {
                    WatchAsk::DriveWithoutTheFirstBuild
                };
                Watcher { ask, ..self }
            },
            (WatchAsk::EnsureLoading, WatchReply::Finished) => Watcher {
                ask: WatchAsk::DriveWithoutTheFirstBuild,
                ..self
            },
            (WatchAsk::DriveWithoutTheFirstBuild, WatchReply::Finished) => Watcher {
                ask: WatchAsk::Leave(Checkpoint::Rung),
                ..self
            },
            (WatchAsk::TakeContinuation, WatchReply::Latched(continuing)) => Watcher {
                ask: WatchAsk::SampleAlarms { continuing },
                ..self
            },
            (WatchAsk::SampleAlarms { continuing }, WatchReply::Alarms(alarms)) => {
                let ask = if continuing {
                    // A latch shortens the wait to nothing; it does not skip the drain.
                    WatchAsk::Wait { generation: self.generation, alarms, wait: 0 }
                } else {
                    WatchAsk::ReadDue { alarms }
                };
                Watcher { ask, ..self }
            },
            (WatchAsk::ReadDue { alarms }, WatchReply::Due { wake_at, now }) => {
                let wait = alarm_wait(wake_at, now);
                Watcher {
                    ask: WatchAsk::Wait { generation: self.generation, alarms, wait },
                    ..self
                }
            },
            (WatchAsk::Wait { generation: _, alarms: _, wait: _ }, WatchReply::Generation(generation)) => {
                Watcher { generation, ask: WatchAsk::Leave(Checkpoint::Waited) }
            },
            (WatchAsk::SetStopped, WatchReply::Finished) => Watcher {
                ask: WatchAsk::Unsubscribe,
                ..self
            },
            (WatchAsk::Unsubscribe, WatchReply::Finished) => Watcher {
                ask: WatchAsk::ReleaseScanCursor,
                ..self
            },
            (WatchAsk::ReleaseScanCursor, WatchReply::Finished) => Watcher {
                ask: WatchAsk::AbandonAdvisory,
                ..self
            },
            (WatchAsk::AbandonAdvisory, WatchReply::Finished) => Watcher {
                ask: WatchAsk::LeaveOwners,
                ..self
            },
            _ => Watcher { ask: WatchAsk::Done, ..self },
        }
    }
}

impl Protocol for Watcher {
    type Reply = WatchReply;

    open spec fn takes(self, reply: WatchReply) -> bool {
        match self.ask {
            WatchAsk::ReadGeneration => reply is Generation,
            WatchAsk::Leave(_) => reply is Leave,
            WatchAsk::AwaitReadiness => reply is Settled,
            WatchAsk::ReadIdle => reply is Idle,
            WatchAsk::TakeAsk => reply is Asked,
            WatchAsk::TakeContinuation => reply is Latched,
            WatchAsk::SampleAlarms { .. } => reply is Alarms,
            WatchAsk::ReadDue { .. } => reply is Due,
            WatchAsk::Wait { .. } => reply is Generation,
            WatchAsk::Done => false,
            _ => reply is Finished,
        }
    }

    open spec fn after(self, reply: WatchReply) -> Watcher {
        self.replied(reply)
    }
}

/// The watcher as it stood after the first `k` replies.
pub open spec fn stood(replies: Seq<WatchReply>, k: int) -> Watcher {
    protocol::run(Watcher::begun(), replies.take(k))
}

proof fn lemma_stood(replies: Seq<WatchReply>)
    requires
        replies.len() > 0,
    ensures
        forall|k: int|
            0 <= k < replies.len() ==> #[trigger] stood(replies, k) == stood(
                replies.drop_last(),
                k,
            ),
        stood(replies, replies.len() as int) == protocol::run(Watcher::begun(), replies),
        stood(replies, replies.len() - 1) == protocol::run(Watcher::begun(), replies.drop_last()),
{
    assert forall|k: int| 0 <= k < replies.len() implies #[trigger] stood(replies, k) == stood(
        replies.drop_last(),
        k,
    ) by {
        assert(replies.take(k) =~= replies.drop_last().take(k));
    }
    assert(replies.take(replies.len() as int) =~= replies);
    assert(replies.take(replies.len() - 1) =~= replies.drop_last());
}

/// The first observation is behind the watcher: everything already delivered was recorded.
pub open spec fn observed(replies: Seq<WatchReply>) -> bool {
    exists|k: int|
        0 <= k < replies.len() && (#[trigger] stood(replies, k)).ask == (WatchAsk::Drain {
            first: true,
        })
}

/// The asks of the watcher's turns, which come only once it runs.
pub open spec fn in_its_turns(ask: WatchAsk) -> bool {
    match ask {
        WatchAsk::SetRunning => true,
        WatchAsk::TakeAsk => true,
        WatchAsk::EnsureLoading => true,
        WatchAsk::DriveWithoutTheFirstBuild => true,
        WatchAsk::TakeContinuation => true,
        WatchAsk::SampleAlarms { .. } => true,
        WatchAsk::ReadDue { .. } => true,
        WatchAsk::Wait { .. } => true,
        WatchAsk::Drain { first } => !first,
        WatchAsk::Leave(Checkpoint::Turn) => true,
        WatchAsk::Leave(Checkpoint::Rung) => true,
        WatchAsk::Leave(Checkpoint::Waited) => true,
        _ => false,
    }
}

/// Past the drain of its first observation.
spec fn past_the_first_drain(ask: WatchAsk) -> bool {
    in_its_turns(ask) || ask is ReadIdle || ask is ObserveLevel || ask is RefreshAdvisory || ask
        == WatchAsk::Leave(Checkpoint::Observed)
}

proof fn lemma_observed(replies: Seq<WatchReply>)
    requires
        protocol::conversation(Watcher::begun(), replies),
    ensures
        past_the_first_drain(protocol::run(Watcher::begun(), replies).ask) ==> observed(replies),
    decreases replies.len(),
{
    if replies.len() > 0 {
        let before = replies.drop_last();
        lemma_observed(before);
        lemma_stood(replies);
        let asked = protocol::run(Watcher::begun(), before).ask;
        if past_the_first_drain(protocol::run(Watcher::begun(), replies).ask) {
            if past_the_first_drain(asked) {
                let k = choose|k: int|
                    0 <= k < before.len() && (#[trigger] stood(before, k)).ask == (WatchAsk::Drain {
                        first: true,
                    });
                assert(stood(replies, k).ask == (WatchAsk::Drain { first: true }));
            } else {
                assert(stood(replies, replies.len() - 1).ask == (WatchAsk::Drain { first: true }));
            }
        }
    }
}

/// The watcher vouches for nothing before its first observation is complete: it is announced as
/// running, and takes its first turn, only once everything already delivered was recorded.
pub proof fn law_running_means_observed(replies: Seq<WatchReply>)
    requires
        protocol::conversation(Watcher::begun(), replies),
        in_its_turns(protocol::run(Watcher::begun(), replies).ask),
    ensures
        observed(replies),
{
    lemma_observed(replies);
}

/// The latest reading of the hub's generation is the one at place `k`.
pub open spec fn last_generation(replies: Seq<WatchReply>, k: int) -> bool {
    &&& 0 <= k < replies.len()
    &&& replies[k] is Generation
    &&& forall|j: int| k < j < replies.len() ==> !(#[trigger] replies[j] is Generation)
}

proof fn lemma_generation(replies: Seq<WatchReply>) -> (k: int)
    requires
        protocol::conversation(Watcher::begun(), replies),
        replies.len() > 0,
    ensures
        last_generation(replies, k),
        replies[k] == WatchReply::Generation(
            protocol::run(Watcher::begun(), replies).generation,
        ),
        k == 0 || (stood(replies, k).ask is Wait),
        protocol::run(Watcher::begun(), replies).ask is Wait ==> protocol::run(
            Watcher::begun(),
            replies,
        ).ask->generation == protocol::run(Watcher::begun(), replies).generation,
    decreases replies.len(),
{
    let n = replies.len() as int;
    lemma_stood(replies);
    if n == 1 {
        assert(protocol::run(Watcher::begun(), replies.drop_last()) == Watcher::begun());
        0
    } else {
        let k = lemma_generation(replies.drop_last());
        assert(!(protocol::run(Watcher::begun(), replies.drop_last()).ask is ReadGeneration)) by {
            lemma_generation_is_read_once(replies.drop_last());
        }
        if replies.last() is Generation {
            n - 1
        } else {
            assert(replies[k] == replies.drop_last()[k]);
            assert forall|j: int| k < j < n implies !(#[trigger] replies[j] is Generation) by {
                if j < n - 1 {
                    assert(replies[j] == replies.drop_last()[j]);
                }
            }
            k
        }
    }
}

proof fn lemma_generation_is_read_once(replies: Seq<WatchReply>)
    requires
        protocol::conversation(Watcher::begun(), replies),
    ensures
        protocol::run(Watcher::begun(), replies).ask is ReadGeneration ==> replies.len() == 0,
    decreases replies.len(),
{
    if replies.len() > 0 {
        lemma_generation_is_read_once(replies.drop_last());
    }
}

/// No delivery falls between two waits: each wait starts from the generation the last wait came
/// back with, and the first one from that read before the first observation.
pub proof fn law_a_wait_starts_where_the_last_one_ended(replies: Seq<WatchReply>)
    requires
        protocol::conversation(Watcher::begun(), replies),
        protocol::run(Watcher::begun(), replies).ask is Wait,
    ensures
        exists|k: int| #[trigger]
            last_generation(replies, k) && replies[k] == WatchReply::Generation(
                protocol::run(Watcher::begun(), replies).ask->generation,
            ) && (k == 0 || stood(replies, k).ask is Wait),
{
    if replies.len() > 0 {
        let k = lemma_generation(replies);
    }
}

/// The latch is read before the counter, and a latch shortens the wait to nothing; without one the
/// wait is the owed work's, and never longer than the slice.
pub proof fn law_the_latch_is_read_before_the_counter(replies: Seq<WatchReply>)
    requires
        protocol::conversation(Watcher::begun(), replies),
        protocol::run(Watcher::begun(), replies).ask is Wait,
    ensures
        ({
            let ask = protocol::run(Watcher::begun(), replies).ask;
            let n = replies.len() as int;
            ||| n >= 2 && replies[n - 1] == WatchReply::Alarms(ask->Wait_alarms) && replies[n - 2]
                == WatchReply::Latched(true) && ask->wait == 0
            ||| n >= 3 && replies[n - 2] == WatchReply::Alarms(ask->Wait_alarms) && replies[n - 3]
                == WatchReply::Latched(false) && (replies[n - 1] matches WatchReply::Due {
                wake_at,
                now,
            } && ask->wait == wait_until_due(wake_at, now))
        }),
        protocol::run(Watcher::begun(), replies).ask->wait <= WAIT_SLICE,
{
    let n = replies.len() as int;
    let begun = Watcher::begun();
    let one = replies.drop_last();
    assert(protocol::run(begun, replies) == protocol::run(begun, one).replied(replies[n - 1]));
    if one.len() > 0 {
        let two = one.drop_last();
        assert(one.last() == replies[n - 2]);
        assert(protocol::conversation(begun, one));
        assert(protocol::run(begun, one) == protocol::run(begun, two).replied(replies[n - 2]));
        if two.len() > 0 {
            let three = two.drop_last();
            assert(two.last() == replies[n - 3]);
            assert(protocol::conversation(begun, two));
            assert(protocol::run(begun, two) == protocol::run(begun, three).replied(
                replies[n - 3],
            ));
        }
    }
}

/// A turn is not skipped: what follows a wait the watcher stays for is the drain that brings the
/// deliveries in.
pub proof fn law_a_wait_is_followed_by_a_drain(watcher: Watcher, generation: u64)
    requires
        watcher.ask is Wait,
    ensures
        ({
            let waited = watcher.replied(WatchReply::Generation(generation));
            &&& waited.ask == WatchAsk::Leave(Checkpoint::Waited)
            &&& waited.replied(WatchReply::Leave(false)).ask == (WatchAsk::Drain { first: false })
            &&& waited.replied(WatchReply::Leave(true)).ask is SetStopped
        }),
{
}

/// A watcher that leaves says so, gives both cursors back and abandons the advisory, whenever it
/// leaves, and counts as gone only once it has.
pub proof fn law_a_watcher_leaves_nothing_behind(replies: Seq<WatchReply>)
    requires
        protocol::conversation(Watcher::begun(), replies),
        protocol::run(Watcher::begun(), replies).ask is Done,
    ensures
        replies.len() >= 5,
        stood(replies, replies.len() - 5).ask is SetStopped,
        stood(replies, replies.len() - 4).ask is Unsubscribe,
        stood(replies, replies.len() - 3).ask is ReleaseScanCursor,
        stood(replies, replies.len() - 2).ask is AbandonAdvisory,
        stood(replies, replies.len() - 1).ask is LeaveOwners,
{
    let n = replies.len() as int;
    lemma_leaving(replies, 5);
    assert(steps_out(stood(replies, n - 5 + 0).ask) == 0);
    assert(steps_out(stood(replies, n - 5 + 1).ask) == 1);
    assert(steps_out(stood(replies, n - 5 + 2).ask) == 2);
    assert(steps_out(stood(replies, n - 5 + 3).ask) == 3);
    assert(steps_out(stood(replies, n - 5 + 4).ask) == 4);
}

/// How many replies behind `SetStopped` an ask of the way out is.
spec fn steps_out(ask: WatchAsk) -> int {
    match ask {
        WatchAsk::SetStopped => 0,
        WatchAsk::Unsubscribe => 1,
        WatchAsk::ReleaseScanCursor => 2,
        WatchAsk::AbandonAdvisory => 3,
        WatchAsk::LeaveOwners => 4,
        WatchAsk::Done => 5,
        _ => -1,
    }
}

/// The way out is one way: each of its asks was reached through those before it.
proof fn lemma_leaving(replies: Seq<WatchReply>, out: int)
    requires
        protocol::conversation(Watcher::begun(), replies),
        steps_out(protocol::run(Watcher::begun(), replies).ask) == out,
        0 <= out,
    ensures
        replies.len() >= out,
        forall|k: int|
            0 <= k < out ==> steps_out(
                (#[trigger] stood(replies, replies.len() - out + k)).ask,
            ) == k,
    decreases out,
{
    if out > 0 {
        let n = replies.len() as int;
        assert(replies.len() > 0);
        let before = replies.drop_last();
        lemma_stood(replies);
        lemma_leaving(before, out - 1);
        assert forall|k: int| 0 <= k < out implies steps_out(
            (#[trigger] stood(replies, n - out + k)).ask,
        ) == k by {
            if k < out - 1 {
                assert(stood(before, before.len() - (out - 1) + k) == stood(replies, n - out + k));
            }
        }
    }
}

/// What the start of a watcher wants done.
#[derive(Clone, Copy, Debug, PartialEq, Eq, Structural)]
pub enum StartAsk {
    /// A cursor of its own, so that the stream begins before the first scan reads disk.
    Subscribe,
    SetStarting,
    /// The watcher counts as an owner from here on, and takes the roots the project has now.
    EnterOwners,
    /// The watcher's own thread.
    Spawn,
    /// The cursor is the watcher's to give back from here on.
    HandOver,
    /// The advisory has nobody to keep it current.
    AbandonAdvisory { subscribed: bool },
    /// A watcher without a thread counts as gone.
    LeaveOwners,
    SetStopped,
    /// The cursor nobody will drain.
    GiveBackCursor,
    Done { started: bool },
}

#[derive(Clone, Copy, Debug, PartialEq, Eq, Structural)]
pub enum StartReply {
    Subscribed(bool),
    Spawned(bool),
    Finished,
}

/// The start of a watcher.
#[derive(Clone, Copy, Debug, PartialEq, Eq, Structural)]
pub struct WatcherStart {
    pub ask: StartAsk,
}

impl WatcherStart {
    pub open spec fn begun() -> WatcherStart {
        WatcherStart { ask: StartAsk::Subscribe }
    }

    pub open spec fn replied(self, reply: StartReply) -> WatcherStart {
        WatcherStart {
            ask: match (self.ask, reply) {
                (StartAsk::Subscribe, StartReply::Subscribed(subscribed)) => {
                    if subscribed {
                        StartAsk::SetStarting
                    } else {
                        StartAsk::AbandonAdvisory { subscribed: false }
                    }
                },
                (StartAsk::SetStarting, StartReply::Finished) => StartAsk::EnterOwners,
                (StartAsk::EnterOwners, StartReply::Finished) => StartAsk::Spawn,
                (StartAsk::Spawn, StartReply::Spawned(spawned)) => {
                    if spawned {
                        StartAsk::HandOver
                    } else {
                        StartAsk::AbandonAdvisory { subscribed: true }
                    }
                },
                (StartAsk::HandOver, StartReply::Finished) => StartAsk::Done { started: true },
                (
                    StartAsk::AbandonAdvisory { subscribed: true },
                    StartReply::Finished,
                ) => StartAsk::LeaveOwners,
                (StartAsk::LeaveOwners, StartReply::Finished) => StartAsk::SetStopped,
                (StartAsk::SetStopped, StartReply::Finished) => StartAsk::GiveBackCursor,
                (_, _) => StartAsk::Done { started: false },
            },
        }
    }

    pub fn begin() -> (start: WatcherStart)
        ensures
            start == WatcherStart::begun(),
    {
        WatcherStart { ask: StartAsk::Subscribe }
    }

    /// Take the reply to what was asked, and say what comes next.
    pub fn reply(self, reply: StartReply) -> (next: WatcherStart)
        requires
            self.takes(reply),
        ensures
            next == self.replied(reply),
    {
        let ask = match (self.ask, reply) {
            (StartAsk::Subscribe, StartReply::Subscribed(subscribed)) => {
                if subscribed {
                    StartAsk::SetStarting
                } else {
                    StartAsk::AbandonAdvisory { subscribed: false }
                }
            },
            (StartAsk::SetStarting, StartReply::Finished) => StartAsk::EnterOwners,
            (StartAsk::EnterOwners, StartReply::Finished) => StartAsk::Spawn,
            (StartAsk::Spawn, StartReply::Spawned(spawned)) => {
                if spawned {
                    StartAsk::HandOver
                } else {
                    StartAsk::AbandonAdvisory { subscribed: true }
                }
            },
            (StartAsk::HandOver, StartReply::Finished) => StartAsk::Done { started: true },
            (
                StartAsk::AbandonAdvisory { subscribed: true },
                StartReply::Finished,
            ) => StartAsk::LeaveOwners,
            (StartAsk::LeaveOwners, StartReply::Finished) => StartAsk::SetStopped,
            (StartAsk::SetStopped, StartReply::Finished) => StartAsk::GiveBackCursor,
            _ => StartAsk::Done { started: false },
        };
        WatcherStart { ask }
    }
}

impl Protocol for WatcherStart {
    type Reply = StartReply;

    open spec fn takes(self, reply: StartReply) -> bool {
        match self.ask {
            StartAsk::Subscribe => reply is Subscribed,
            StartAsk::Spawn => reply is Spawned,
            StartAsk::Done { .. } => false,
            _ => reply is Finished,
        }
    }

    open spec fn after(self, reply: StartReply) -> WatcherStart {
        self.replied(reply)
    }
}

/// Something was asked for in the course of a start.
pub open spec fn was_asked(replies: Seq<StartReply>, wanted: spec_fn(StartAsk) -> bool) -> bool {
    exists|k: int|
        0 <= k < replies.len() && wanted(
            (#[trigger] protocol::run(WatcherStart::begun(), replies.take(k))).ask,
        )
}

/// The thread was asked for, and there was none to have.
pub open spec fn spawn_failed(replies: Seq<StartReply>) -> bool {
    exists|k: int| 0 <= k < replies.len() && #[trigger] replies[k] == StartReply::Spawned(false)
}

proof fn lemma_was_asked(replies: Seq<StartReply>, wanted: spec_fn(StartAsk) -> bool)
    requires
        replies.len() > 0,
    ensures
        was_asked(replies, wanted) <==> was_asked(replies.drop_last(), wanted) || wanted(
            protocol::run(WatcherStart::begun(), replies.drop_last()).ask,
        ),
{
    let before = replies.drop_last();
    let last = before.len() as int;
    assert(replies.take(last) =~= before);
    if was_asked(replies, wanted) {
        let k = choose|k: int|
            0 <= k < replies.len() && wanted(
                (#[trigger] protocol::run(WatcherStart::begun(), replies.take(k))).ask,
            );
        assert(k < last ==> replies.take(k) =~= before.take(k));
    }
    if was_asked(before, wanted) {
        let k = choose|k: int|
            0 <= k < before.len() && wanted(
                (#[trigger] protocol::run(WatcherStart::begun(), before.take(k))).ask,
            );
        assert(replies.take(k) =~= before.take(k));
    }
    assert(wanted(protocol::run(WatcherStart::begun(), before).ask) ==> wanted(
        protocol::run(WatcherStart::begun(), replies.take(last)).ask,
    ));
}

proof fn lemma_spawn_failed(replies: Seq<StartReply>)
    requires
        replies.len() > 0,
    ensures
        spawn_failed(replies) <==> spawn_failed(replies.drop_last()) || replies.last()
            == StartReply::Spawned(false),
{
    let before = replies.drop_last();
    if spawn_failed(replies) {
        let k = choose|k: int|
            0 <= k < replies.len() && #[trigger] replies[k] == StartReply::Spawned(false);
        assert(k < before.len() ==> before[k] == replies[k]);
    }
    if spawn_failed(before) {
        let k = choose|k: int|
            0 <= k < before.len() && #[trigger] before[k] == StartReply::Spawned(false);
        assert(replies[k] == before[k]);
    }
    assert(replies[replies.len() - 1] == replies.last());
}

/// How many replies lead to an ask of a start that got its cursor.
spec fn steps_in(ask: StartAsk) -> int {
    match ask {
        StartAsk::Subscribe => 0,
        StartAsk::SetStarting => 1,
        StartAsk::EnterOwners => 2,
        StartAsk::Spawn => 3,
        StartAsk::HandOver => 4,
        StartAsk::AbandonAdvisory { subscribed } => if subscribed {
            4
        } else {
            1
        },
        StartAsk::LeaveOwners => 5,
        StartAsk::SetStopped => 6,
        StartAsk::GiveBackCursor => 7,
        StartAsk::Done { started } => if started {
            5
        } else {
            8
        },
    }
}

proof fn lemma_start(replies: Seq<StartReply>)
    requires
        protocol::conversation(WatcherStart::begun(), replies),
    ensures
        ({
            let ask = protocol::run(WatcherStart::begun(), replies).ask;
            let n = replies.len();
            let refused = ask == (StartAsk::Done { started: false }) && n == 2;
            let failed = ask == (StartAsk::Done { started: false }) && n == 8;
            &&& n == steps_in(ask) || refused
            &&& spawn_failed(replies) <==> failed || ask == (StartAsk::AbandonAdvisory {
                subscribed: true,
            }) || ask is LeaveOwners || ask is SetStopped || ask is GiveBackCursor
            &&& was_asked(replies, |a: StartAsk| a is HandOver) <==> ask == (StartAsk::Done {
                started: true,
            })
            &&& was_asked(replies, |a: StartAsk| a is AbandonAdvisory) <==> refused || failed || ask
                is LeaveOwners || ask is SetStopped || ask is GiveBackCursor
            &&& was_asked(replies, |a: StartAsk| a is LeaveOwners) <==> failed || ask is SetStopped
                || ask is GiveBackCursor
            &&& was_asked(replies, |a: StartAsk| a is SetStopped) <==> failed || ask is GiveBackCursor
            &&& was_asked(replies, |a: StartAsk| a is GiveBackCursor) <==> failed
        }),
    decreases replies.len(),
{
    if replies.len() > 0 {
        lemma_start(replies.drop_last());
        lemma_spawn_failed(replies);
        lemma_was_asked(replies, |a: StartAsk| a is HandOver);
        lemma_was_asked(replies, |a: StartAsk| a is AbandonAdvisory);
        lemma_was_asked(replies, |a: StartAsk| a is LeaveOwners);
        lemma_was_asked(replies, |a: StartAsk| a is SetStopped);
        lemma_was_asked(replies, |a: StartAsk| a is GiveBackCursor);
    }
}

/// A watcher that never began leaves the advisory saying that nobody keeps it current, and one that
/// began keeps it.
pub proof fn law_a_watcher_that_never_began_abandons_the_advisory(
    replies: Seq<StartReply>,
    started: bool,
)
    requires
        protocol::conversation(WatcherStart::begun(), replies),
        protocol::run(WatcherStart::begun(), replies).ask == (StartAsk::Done { started }),
    ensures
        was_asked(replies, |ask: StartAsk| ask is AbandonAdvisory) <==> !started,
{
    lemma_start(replies);
}

/// A start whose thread could not be had takes everything back: the cursor is given back, the
/// watcher counts as gone and reads as stopped. It does so exactly where the spawn failed: a
/// watcher that has its thread keeps its cursor, and one that got no cursor has none to give.
pub proof fn law_the_cursor_comes_back_exactly_where_the_spawn_failed(
    replies: Seq<StartReply>,
    started: bool,
)
    requires
        protocol::conversation(WatcherStart::begun(), replies),
        protocol::run(WatcherStart::begun(), replies).ask == (StartAsk::Done { started }),
    ensures
        was_asked(replies, |ask: StartAsk| ask is GiveBackCursor) <==> spawn_failed(replies),
        was_asked(replies, |ask: StartAsk| ask is LeaveOwners) <==> spawn_failed(replies),
        was_asked(replies, |ask: StartAsk| ask is SetStopped) <==> spawn_failed(replies),
        was_asked(replies, |ask: StartAsk| ask is HandOver) <==> started,
        spawn_failed(replies) ==> !started,
{
    lemma_start(replies);
}

} // verus!
