//! The one executor of owed work.
//!
//! Every intake records and then drives; the watcher drives on its alarm, and a build on its
//! outcome. A turn takes a single action and then reads the state that action changed, because a
//! decision taken before an action is a decision about a state that no longer exists.
//!
//! The executor itself touches nothing: [`Drive`] says what has to be done next, and is told how
//! it went.

use crate::debt::{BuildKind, BuildStart, Decision, Facts};
use crate::inner::ReloadClaim;
use crate::intake;
use crate::intake::GraphStep;
use crate::protocol;
use crate::protocol::Protocol;
use vstd::prelude::*;

verus! {

/// How many turns one drive may take before it yields.
pub const QUANTUM: usize = 8;

/// Who is driving, and therefore what they may start.
#[derive(Clone, Copy, Debug, PartialEq, Eq, Structural)]
pub enum Executor {
    /// The boot, a request, or a build reporting its own outcome: everything owed.
    Any,
    /// The drift watcher: everything owed except the first build of an idle graph. That one
    /// belongs to the boot's fused pass, which parses the workspace once for the graph and the
    /// search index together, and to a request.
    NotTheFirstBuild,
}

/// What a start did, for the one caller that must know whether anything actually began.
#[derive(Clone, Copy, Debug, PartialEq, Eq, Structural)]
pub enum StartOutcome {
    /// A build began, or the slot was refused and its own outcome will decide next.
    Settled,
    /// No build: the comparison found disk already matching and answered the debts instead, which
    /// can leave whatever queued behind them ripe this very instant.
    AnsweredWithoutBuilding,
}

/// What the executor wants done.
#[derive(Clone, Copy, Debug, PartialEq, Eq, Structural)]
pub enum DriveAsk {
    /// Read the lifecycle before the first turn.
    EntryFacts,
    /// The workspace is gone for good: drop every debt.
    Abandon,
    /// Ask the ledger whether anything is owed at all.
    AskStale,
    /// Ownership could not be confirmed while something is owed: hold the decision.
    Hold,
    /// Read the lifecycle for this turn.
    TurnFacts,
    /// Ask the ledger what it would have done under these facts.
    Decide(Facts),
    /// Start this build. `flush` says that the hook is owed an offer afterwards.
    Start { start: BuildStart, flush: bool },
    /// Compare the published build with disk.
    Check { flush: bool },
    /// Look at what the published build could not read. The probe decides again itself.
    Probe,
    /// Offer the hook what it has not taken. `acted` says that this turn has done something
    /// already.
    Flush { acted: bool },
    /// The quantum ran out with work still ripe: hand it on.
    Latch,
    Done,
}

/// How what the executor asked for went.
#[derive(Clone, Copy, Debug, PartialEq, Eq, Structural)]
pub enum DriveReply {
    Facts(Facts),
    Stale(bool),
    Decision(Decision),
    Started(StartOutcome),
    /// Whether the offer was made and anything was taken of it. A decline is not an action: counted
    /// as one it would spin the turn over work that cannot move.
    Flushed(bool),
    Finished,
}

/// An executor's run.
#[derive(Clone, Copy, Debug, PartialEq, Eq, Structural)]
pub struct Drive {
    pub executor: Executor,
    /// Turns that ended with something done.
    pub turns: usize,
    pub ask: DriveAsk,
}

/// A turn may be taken: nothing is in flight, the workspace is owned and nobody is leaving.
pub open spec fn may_turn(facts: Facts) -> bool {
    !facts.terminal && !facts.stopping && !facts.in_flight && facts.owns
}

/// This executor may start a build under these facts.
pub open spec fn may_start(executor: Executor, facts: Facts) -> bool {
    !(executor is NotTheFirstBuild && facts.idle)
}

/// The reply is one to what was asked.
pub open spec fn answers(ask: DriveAsk, reply: DriveReply) -> bool {
    match ask {
        DriveAsk::EntryFacts => reply is Facts,
        DriveAsk::TurnFacts => reply is Facts,
        DriveAsk::AskStale => reply is Stale,
        DriveAsk::Decide(_) => reply is Decision,
        DriveAsk::Start { .. } => reply is Started,
        DriveAsk::Flush { .. } => reply is Flushed,
        DriveAsk::Abandon => reply is Finished,
        DriveAsk::Hold => reply is Finished,
        DriveAsk::Check { .. } => reply is Finished,
        DriveAsk::Probe => reply is Finished,
        DriveAsk::Latch => reply is Finished,
        DriveAsk::Done => false,
    }
}

impl Drive {
    pub open spec fn begun(has_root: bool, executor: Executor) -> Drive {
        Drive {
            executor,
            turns: 0,
            ask: if has_root {
                DriveAsk::EntryFacts
            } else {
                DriveAsk::Done
            },
        }
    }

    pub open spec fn asking(self, ask: DriveAsk) -> Drive {
        Drive { ask, ..self }
    }

    /// A turn ends. One that did nothing ends the run; the last one of the quantum hands over.
    pub open spec fn turn_ended(self, acted: bool) -> Drive {
        if !acted {
            self.asking(DriveAsk::Done)
        } else {
            Drive {
                turns: (self.turns + 1) as usize,
                ask: if self.turns + 1 >= QUANTUM {
                    DriveAsk::Latch
                } else {
                    DriveAsk::TurnFacts
                },
                ..self
            }
        }
    }

    /// The action of a turn is over: the hook's offer follows where one is owed.
    pub open spec fn action_over(self, flush: bool, acted: bool) -> Drive {
        if flush {
            self.asking(DriveAsk::Flush { acted })
        } else {
            self.turn_ended(acted)
        }
    }

    pub open spec fn decided(self, facts: Facts, decision: Decision) -> Drive {
        let flush = decision.flush_hook.owed();
        if decision.start is Some {
            if may_start(self.executor, facts) {
                self.asking(DriveAsk::Start { start: decision.start->0, flush })
            } else {
                self.action_over(flush, false)
            }
        } else if decision.check {
            self.asking(DriveAsk::Check { flush })
        } else if decision.probe {
            self.asking(DriveAsk::Probe)
        } else {
            self.action_over(flush, false)
        }
    }

    pub open spec fn replied(self, reply: DriveReply) -> Drive {
        match (self.ask, reply) {
            (DriveAsk::EntryFacts, DriveReply::Facts(facts)) => {
                if facts.terminal {
                    self.asking(DriveAsk::Abandon)
                } else if facts.stopping {
                    self.asking(DriveAsk::Done)
                } else if !facts.owns {
                    self.asking(DriveAsk::AskStale)
                } else {
                    self.asking(DriveAsk::TurnFacts)
                }
            },
            (DriveAsk::AskStale, DriveReply::Stale(stale)) => {
                if stale {
                    self.asking(DriveAsk::Hold)
                } else {
                    self.asking(DriveAsk::Done)
                }
            },
            (DriveAsk::TurnFacts, DriveReply::Facts(facts)) => {
                if may_turn(facts) {
                    self.asking(DriveAsk::Decide(facts))
                } else {
                    self.asking(DriveAsk::Done)
                }
            },
            (DriveAsk::Decide(facts), DriveReply::Decision(decision)) => {
                self.decided(facts, decision)
            },
            (DriveAsk::Start { flush, .. }, DriveReply::Started(outcome)) => {
                if outcome is Settled {
                    self.asking(DriveAsk::Done)
                } else {
                    self.action_over(flush, true)
                }
            },
            (DriveAsk::Check { flush }, DriveReply::Finished) => self.action_over(flush, true),
            (DriveAsk::Flush { acted }, DriveReply::Flushed(taken)) => {
                self.turn_ended(acted || taken)
            },
            (_, _) => self.asking(DriveAsk::Done),
        }
    }

    /// Begin a run. A graph without a workspace owes nothing.
    pub fn begin(has_root: bool, executor: Executor) -> (drive: Drive)
        ensures
            drive == Drive::begun(has_root, executor),
    {
        let ask = if has_root {
            DriveAsk::EntryFacts
        } else {
            DriveAsk::Done
        };
        Drive { executor, turns: 0, ask }
    }

    fn end_turn(self, acted: bool) -> (next: Drive)
        requires
            self.turns < QUANTUM,
        ensures
            next == self.turn_ended(acted),
    {
        if !acted {
            Drive { ask: DriveAsk::Done, ..self }
        } else {
            let turns: usize = self.turns + 1;
            let ask = if turns >= QUANTUM {
                DriveAsk::Latch
            } else {
                DriveAsk::TurnFacts
            };
            Drive { turns, ask, ..self }
        }
    }

    fn end_action(self, flush: bool, acted: bool) -> (next: Drive)
        requires
            self.turns < QUANTUM,
        ensures
            next == self.action_over(flush, acted),
    {
        if flush {
            Drive { ask: DriveAsk::Flush { acted }, ..self }
        } else {
            self.end_turn(acted)
        }
    }

    fn act_on(self, facts: Facts, decision: Decision) -> (next: Drive)
        requires
            self.turns < QUANTUM,
        ensures
            next == self.decided(facts, decision),
    {
        let flush = decision.flush_hook.any();
        match decision.start {
            Some(start) => {
                // The first build of an idle graph is not every executor's to take. Nothing is
                // dropped: the debt stands, and the boot or the first request answers it.
                if self.executor == Executor::NotTheFirstBuild && facts.idle {
                    self.end_action(flush, false)
                } else {
                    Drive { ask: DriveAsk::Start { start, flush }, ..self }
                }
            },
            None => {
                if decision.check {
                    Drive { ask: DriveAsk::Check { flush }, ..self }
                } else if decision.probe {
                    Drive { ask: DriveAsk::Probe, ..self }
                } else {
                    self.end_action(flush, false)
                }
            },
        }
    }

    /// Take the reply to what was asked, and say what comes next.
    pub fn reply(self, reply: DriveReply) -> (next: Drive)
        requires
            self.turns < QUANTUM || self.ask is Latch,
            answers(self.ask, reply),
        ensures
            next == self.replied(reply),
    {
        match (self.ask, reply) {
            (DriveAsk::EntryFacts, DriveReply::Facts(facts)) => {
                let ask = if facts.terminal {
                    DriveAsk::Abandon
                } else if facts.stopping {
                    // Leaving is neither a refusal nor a failure: nothing is dropped, nothing is
                    // held for a retry this generation will not make.
                    DriveAsk::Done
                } else if !facts.owns {
                    // Not a takeover, just an answer the lease could not give right now. Held only
                    // while something is owed: on a graph that owes nothing there is nothing to
                    // come back for.
                    DriveAsk::AskStale
                } else {
                    DriveAsk::TurnFacts
                };
                Drive { ask, ..self }
            },
            (DriveAsk::AskStale, DriveReply::Stale(stale)) => {
                let ask = if stale {
                    DriveAsk::Hold
                } else {
                    DriveAsk::Done
                };
                Drive { ask, ..self }
            },
            (DriveAsk::TurnFacts, DriveReply::Facts(facts)) => {
                let ask = if facts.terminal || facts.stopping || facts.in_flight || !facts.owns {
                    DriveAsk::Done
                } else {
                    DriveAsk::Decide(facts)
                };
                Drive { ask, ..self }
            },
            (DriveAsk::Decide(facts), DriveReply::Decision(decision)) => self.act_on(
                facts,
                decision,
            ),
            (DriveAsk::Start { start: _, flush }, DriveReply::Started(outcome)) => match outcome {
                // A build is on its way, or the slot is held: either has an outcome of its own.
                StartOutcome::Settled => Drive { ask: DriveAsk::Done, ..self },
                StartOutcome::AnsweredWithoutBuilding => self.end_action(flush, true),
            },
            (DriveAsk::Check { flush }, DriveReply::Finished) => self.end_action(flush, true),
            (DriveAsk::Flush { acted }, DriveReply::Flushed(taken)) => self.end_turn(
                acted || taken,
            ),
            _ => Drive { ask: DriveAsk::Done, ..self },
        }
    }
}

/// How the claim of a run ended.
#[derive(Clone, Copy, Debug, PartialEq, Eq, Structural)]
pub enum RunEnd {
    /// The first build, claimed or not.
    FirstBuild { claimed: bool },
    /// Disk was found to match: every change up to this fact is answered.
    Answered { through: u64 },
    /// The reload slot was granted.
    Claimed,
    /// Ownership could not be confirmed.
    Held,
    /// Nothing follows: no account pays, a build holds the slot, or the graph is leaving.
    Nothing,
}

impl RunEnd {
    /// What a run of this kind leads to. The marks' budget pays for an attempt that goes and reads
    /// disk, so it is spent where one is claimed and nowhere else.
    pub open spec fn steps(self, forced: bool) -> Seq<GraphStep> {
        match self {
            RunEnd::FirstBuild { claimed } => {
                if forced && claimed {
                    seq![GraphStep::SpendMarkAttempt]
                } else {
                    Seq::empty()
                }
            },
            RunEnd::Answered { through } => seq![
                GraphStep::AnswerChange(through),
                GraphStep::AnswerFailure,
                GraphStep::ClearFailedReload,
            ],
            RunEnd::Claimed => {
                if forced {
                    seq![GraphStep::SpendMarkAttempt, GraphStep::SpawnReload]
                } else {
                    seq![GraphStep::SpawnReload]
                }
            },
            RunEnd::Held => intake::quiet(GraphStep::Hold),
            RunEnd::Nothing => Seq::empty(),
        }
    }

    pub open spec fn outcome(self) -> StartOutcome {
        if self is Answered {
            StartOutcome::AnsweredWithoutBuilding
        } else {
            StartOutcome::Settled
        }
    }
}

/// What follows the end of a run's claim.
pub fn run_ended(forced: bool, end: RunEnd) -> (steps: Vec<GraphStep>)
    ensures
        steps@ == end.steps(forced),
{
    match end {
        RunEnd::FirstBuild { claimed } => if forced && claimed {
            vec![GraphStep::SpendMarkAttempt]
        } else {
            Vec::new()
        },
        RunEnd::Answered { through } => vec![
            GraphStep::AnswerChange(through),
            GraphStep::AnswerFailure,
            GraphStep::ClearFailedReload,
        ],
        RunEnd::Claimed => if forced {
            vec![GraphStep::SpendMarkAttempt, GraphStep::SpawnReload]
        } else {
            vec![GraphStep::SpawnReload]
        },
        RunEnd::Held => intake::hold_decision(),
        RunEnd::Nothing => Vec::new(),
    }
}

/// What a decided build, or a comparison with disk, wants done.
#[derive(Clone, Copy, Debug, PartialEq, Eq, Structural)]
pub enum RunAsk {
    /// The position of the fact stream.
    ReadPosition,
    /// The claim on the first build.
    ClaimFirstBuild,
    /// The claim on the reload slot, with its comparison.
    ClaimReload { position: u64 },
    /// Where the stream stood when the scan the comparison used was taken, which may be an older
    /// walk than this run's.
    ReadWatermark { position: u64 },
    /// What follows, by [`run_ended`].
    Perform(RunEnd),
    Done(StartOutcome),
}

#[derive(Clone, Copy, Debug, PartialEq, Eq, Structural)]
pub enum RunReply {
    Position(u64),
    FirstBuild { claimed: bool },
    Reload(ReloadClaim),
    Watermark(u64),
    Finished,
}

/// A decided build, or a comparison with disk.
///
/// The answer a comparison gives covers what was looked at and no more: a fact delivered after that
/// walk has not been compared, and answering it would erase the only record of it. So the position
/// is read before the claim, and no more is answered than the scan had seen.
#[derive(Clone, Copy, Debug, PartialEq, Eq, Structural)]
pub struct BuildRun {
    pub start: BuildStart,
    pub ask: RunAsk,
}

/// The facts a comparison covered: those read before the claim that its scan had seen.
pub open spec fn covered(position: u64, watermark: u64) -> u64 {
    if position <= watermark {
        position
    } else {
        watermark
    }
}

impl BuildRun {
    pub open spec fn begun(start: BuildStart) -> BuildRun {
        BuildRun { start, ask: RunAsk::ReadPosition }
    }

    /// A comparison is an ordinary reload's: it builds where disk has moved on.
    pub open spec fn of_check() -> BuildRun {
        BuildRun::begun(BuildStart { kind: BuildKind::Reload, forced: false })
    }

    pub open spec fn replied(self, reply: RunReply) -> BuildRun {
        BuildRun {
            ask: match (self.ask, reply) {
                (RunAsk::ReadPosition, RunReply::Position(position)) => {
                    if self.start.kind is Initial {
                        RunAsk::ClaimFirstBuild
                    } else {
                        RunAsk::ClaimReload { position }
                    }
                },
                (RunAsk::ClaimFirstBuild, RunReply::FirstBuild { claimed }) => RunAsk::Perform(
                    RunEnd::FirstBuild { claimed },
                ),
                (RunAsk::ClaimReload { position }, RunReply::Reload(claim)) => match claim {
                    ReloadClaim::NotOwed => RunAsk::ReadWatermark { position },
                    ReloadClaim::Claimed => RunAsk::Perform(RunEnd::Claimed),
                    ReloadClaim::Held => RunAsk::Perform(RunEnd::Held),
                    ReloadClaim::Unsponsored => RunAsk::Perform(RunEnd::Nothing),
                    ReloadClaim::Running => RunAsk::Perform(RunEnd::Nothing),
                    ReloadClaim::Stopping => RunAsk::Perform(RunEnd::Nothing),
                },
                (
                    RunAsk::ReadWatermark { position },
                    RunReply::Watermark(watermark),
                ) => RunAsk::Perform(RunEnd::Answered { through: covered(position, watermark) }),
                (RunAsk::Perform(end), RunReply::Finished) => RunAsk::Done(end.outcome()),
                (ask, _) => ask,
            },
            ..self
        }
    }

    /// A build the ledger decided on.
    pub fn begin(start: BuildStart) -> (run: BuildRun)
        ensures
            run == BuildRun::begun(start),
    {
        BuildRun { start, ask: RunAsk::ReadPosition }
    }

    /// A comparison of the published build with disk.
    pub fn check() -> (run: BuildRun)
        ensures
            run == BuildRun::of_check(),
    {
        BuildRun::begin(BuildStart { kind: BuildKind::Reload, forced: false })
    }

    /// Take the reply to what was asked, and say what comes next.
    pub fn reply(self, reply: RunReply) -> (next: BuildRun)
        requires
            self.takes(reply),
        ensures
            next == self.replied(reply),
    {
        let ask = match (self.ask, reply) {
            (RunAsk::ReadPosition, RunReply::Position(position)) => match self.start.kind {
                BuildKind::Initial => RunAsk::ClaimFirstBuild,
                BuildKind::Reload => RunAsk::ClaimReload { position },
            },
            (RunAsk::ClaimFirstBuild, RunReply::FirstBuild { claimed }) => RunAsk::Perform(
                RunEnd::FirstBuild { claimed },
            ),
            (RunAsk::ClaimReload { position }, RunReply::Reload(claim)) => match claim {
                ReloadClaim::NotOwed => RunAsk::ReadWatermark { position },
                ReloadClaim::Claimed => RunAsk::Perform(RunEnd::Claimed),
                ReloadClaim::Held => RunAsk::Perform(RunEnd::Held),
                // Measured, unpayable: a claim refused for want of a sponsor answers nothing.
                ReloadClaim::Unsponsored => RunAsk::Perform(RunEnd::Nothing),
                ReloadClaim::Running => RunAsk::Perform(RunEnd::Nothing),
                ReloadClaim::Stopping => RunAsk::Perform(RunEnd::Nothing),
            },
            (RunAsk::ReadWatermark { position }, RunReply::Watermark(watermark)) => {
                let through: u64 = if position <= watermark {
                    position
                } else {
                    watermark
                };
                RunAsk::Perform(RunEnd::Answered { through })
            },
            (RunAsk::Perform(end), RunReply::Finished) => match end {
                RunEnd::Answered { through: _ } => RunAsk::Done(
                    StartOutcome::AnsweredWithoutBuilding,
                ),
                _ => RunAsk::Done(StartOutcome::Settled),
            },
            (ask, _) => ask,
        };
        BuildRun { ask, ..self }
    }
}

impl Protocol for BuildRun {
    type Reply = RunReply;

    open spec fn takes(self, reply: RunReply) -> bool {
        match self.ask {
            RunAsk::ReadPosition => reply is Position,
            RunAsk::ClaimFirstBuild => reply is FirstBuild,
            RunAsk::ClaimReload { .. } => reply is Reload,
            RunAsk::ReadWatermark { .. } => reply is Watermark,
            RunAsk::Perform(_) => reply is Finished,
            RunAsk::Done(_) => false,
        }
    }

    open spec fn after(self, reply: RunReply) -> BuildRun {
        self.replied(reply)
    }
}

impl Protocol for Drive {
    type Reply = DriveReply;

    open spec fn takes(self, reply: DriveReply) -> bool {
        answers(self.ask, reply)
    }

    open spec fn after(self, reply: DriveReply) -> Drive {
        self.replied(reply)
    }
}

/// What a run may still cost, in replies.
spec fn cost(drive: Drive) -> int {
    let left = 4 * (QUANTUM - drive.turns);
    match drive.ask {
        DriveAsk::EntryFacts => left + 2,
        DriveAsk::TurnFacts => left + 1,
        DriveAsk::Decide(_) => left,
        DriveAsk::Start { .. } => left - 1,
        DriveAsk::Check { .. } => left - 1,
        DriveAsk::Flush { .. } => left - 2,
        DriveAsk::AskStale => 2,
        DriveAsk::Done => 0,
        _ => 1,
    }
}

spec fn within_the_quantum(drive: Drive) -> bool {
    &&& drive.turns <= QUANTUM
    &&& drive.ask is Latch ==> drive.turns == QUANTUM
    &&& drive.turns == QUANTUM ==> drive.ask is Latch || drive.ask is Done
    &&& drive.ask is EntryFacts ==> drive.turns == 0
}

proof fn lemma_within_the_quantum(drive: Drive, replies: Seq<DriveReply>)
    requires
        within_the_quantum(drive),
        protocol::conversation(drive, replies),
    ensures
        within_the_quantum(protocol::run(drive, replies)),
        cost(protocol::run(drive, replies)) + replies.len() <= cost(drive),
    decreases replies.len(),
{
    if replies.len() > 0 {
        lemma_within_the_quantum(drive, replies.drop_last());
    }
}

/// A drive is bounded: every conversation with it ends after finitely many replies, at most four
/// to a turn, and a yielding one has taken exactly its quantum of turns, each of which did
/// something.
pub proof fn law_a_drive_is_bounded(
    has_root: bool,
    executor: Executor,
    replies: Seq<DriveReply>,
)
    requires
        protocol::conversation(Drive::begun(has_root, executor), replies),
    ensures
        replies.len() <= 4 * QUANTUM + 2,
        protocol::run(Drive::begun(has_root, executor), replies).turns <= QUANTUM,
        protocol::run(Drive::begun(has_root, executor), replies).ask is Latch ==> protocol::run(
            Drive::begun(has_root, executor),
            replies,
        ).turns == QUANTUM,
        !(protocol::run(Drive::begun(has_root, executor), replies).ask is Latch) && !(protocol::run(
            Drive::begun(has_root, executor),
            replies,
        ).ask is Done) ==> protocol::run(Drive::begun(has_root, executor), replies).turns < QUANTUM,
{
    lemma_within_the_quantum(Drive::begun(has_root, executor), replies);
}

proof fn lemma_executor_is_kept(drive: Drive, replies: Seq<DriveReply>)
    ensures
        protocol::run(drive, replies).executor == drive.executor,
    decreases replies.len(),
{
    if replies.len() > 0 {
        lemma_executor_is_kept(drive, replies.drop_last());
    }
}

/// A build is started only for what the turn's own reading allows: the last two replies are facts
/// under which a turn may be taken and a decision that asks for exactly this build, and the
/// watcher is never asked to take the first build of an idle graph.
pub proof fn law_a_build_starts_only_where_its_turn_allows(
    has_root: bool,
    executor: Executor,
    replies: Seq<DriveReply>,
)
    requires
        protocol::conversation(Drive::begun(has_root, executor), replies),
        protocol::run(Drive::begun(has_root, executor), replies).ask is Start,
    ensures
        replies.len() >= 3,
        replies[replies.len() - 2] matches DriveReply::Facts(facts) && may_turn(facts) && may_start(
            executor,
            facts,
        ),
        replies[replies.len() - 1] matches DriveReply::Decision(decision) && decision.start == Some(
            protocol::run(Drive::begun(has_root, executor), replies).ask->start,
        ),
{
    let drive = Drive::begun(has_root, executor);
    let n = replies.len();
    lemma_executor_is_kept(drive, replies);
    if n > 0 {
        let before = replies.drop_last();
        lemma_executor_is_kept(drive, before);
        if before.len() > 0 {
            let earlier = before.drop_last();
            assert(before.last() == replies[n - 2]);
            if earlier.len() == 0 {
                assert(protocol::run(drive, earlier) == drive);
            }
        }
    }
}

/// A terminal workspace leads to its debts being dropped and nothing else, and a graph told to
/// stop does nothing at all: nothing is dropped, held or started.
pub proof fn law_a_leaving_graph_starts_nothing(executor: Executor, facts: Facts)
    ensures
        facts.terminal ==> {
            let asked = Drive::begun(true, executor).replied(DriveReply::Facts(facts));
            &&& asked.ask is Abandon
            &&& asked.replied(DriveReply::Finished).ask is Done
        },
        !facts.terminal && facts.stopping ==> Drive::begun(true, executor).replied(
            DriveReply::Facts(facts),
        ).ask is Done,
        Drive::begun(false, executor).ask is Done,
{
}

/// A decision is held only while ownership is unconfirmed on a live graph that owes something.
pub proof fn law_a_hold_needs_something_owed(
    has_root: bool,
    executor: Executor,
    replies: Seq<DriveReply>,
)
    requires
        protocol::conversation(Drive::begun(has_root, executor), replies),
        protocol::run(Drive::begun(has_root, executor), replies).ask is Hold,
    ensures
        replies.len() == 2,
        replies[0] matches DriveReply::Facts(facts) && !facts.terminal && !facts.stopping
            && !facts.owns,
        replies[1] == DriveReply::Stale(true),
{
    let drive = Drive::begun(has_root, executor);
    let n = replies.len();
    if n > 0 {
        let before = replies.drop_last();
        if before.len() > 0 {
            let earlier = before.drop_last();
            lemma_entry_comes_first(drive, before);
            lemma_entry_comes_first(drive, earlier);
            assert(before.last() == replies[n - 2]);
        }
    }
}

/// The entry's questions are asked before the first turn and never again.
proof fn lemma_entry_comes_first(drive: Drive, replies: Seq<DriveReply>)
    requires
        drive.ask is EntryFacts || drive.ask is Done,
        protocol::conversation(drive, replies),
    ensures
        protocol::run(drive, replies).ask is EntryFacts ==> replies.len() == 0,
        protocol::run(drive, replies).ask is AskStale ==> replies.len() == 1,
    decreases replies.len(),
{
    if replies.len() > 0 {
        lemma_entry_comes_first(drive, replies.drop_last());
    }
}

/// Where a conversation with a run stands.
spec fn run_stands(start: BuildStart, replies: Seq<RunReply>) -> bool {
    let run = protocol::run(BuildRun::begun(start), replies);
    let n = replies.len() as int;
    &&& run.start == start
    &&& n >= 1 ==> replies[0] is Position
    &&& n >= 2 ==> (if start.kind is Initial {
        replies[1] is FirstBuild
    } else {
        replies[1] is Reload
    })
    &&& match run.ask {
        RunAsk::ReadPosition => n == 0,
        RunAsk::ClaimFirstBuild => n == 1 && start.kind is Initial,
        RunAsk::ClaimReload { position } => n == 1 && start.kind is Reload && replies[0]
            == RunReply::Position(position),
        RunAsk::ReadWatermark { position } => n == 2 && start.kind is Reload && replies[0]
            == RunReply::Position(position) && replies[1] == RunReply::Reload(ReloadClaim::NotOwed),
        RunAsk::Perform(end) => ended_as(start, replies, end),
        RunAsk::Done(outcome) => n >= 3 && replies.last() is Finished && exists|end: RunEnd|
            #[trigger] ended_as(start, replies.drop_last(), end) && outcome == end.outcome(),
    }
}

/// The claim of a run ended this way: what its replies said, in their order.
pub open spec fn ended_as(start: BuildStart, replies: Seq<RunReply>, end: RunEnd) -> bool {
    match end {
        RunEnd::FirstBuild { claimed } => {
            &&& replies.len() == 2
            &&& start.kind is Initial
            &&& replies[0] is Position
            &&& replies[1] == (RunReply::FirstBuild { claimed })
        },
        RunEnd::Answered { through } => {
            &&& replies.len() == 3
            &&& start.kind is Reload
            &&& replies[0] is Position
            &&& replies[1] == RunReply::Reload(ReloadClaim::NotOwed)
            &&& replies[2] is Watermark
            &&& through == covered(replies[0]->Position_0, replies[2]->Watermark_0)
        },
        RunEnd::Claimed => {
            &&& replies.len() == 2
            &&& start.kind is Reload
            &&& replies[0] is Position
            &&& replies[1] == RunReply::Reload(ReloadClaim::Claimed)
        },
        RunEnd::Held => {
            &&& replies.len() == 2
            &&& start.kind is Reload
            &&& replies[0] is Position
            &&& replies[1] == RunReply::Reload(ReloadClaim::Held)
        },
        RunEnd::Nothing => {
            &&& replies.len() == 2
            &&& start.kind is Reload
            &&& replies[0] is Position
            &&& replies[1] matches RunReply::Reload(claim) && (claim is Unsponsored || claim
                is Running || claim is Stopping)
        },
    }
}

proof fn lemma_run_stands(start: BuildStart, replies: Seq<RunReply>)
    requires
        protocol::conversation(BuildRun::begun(start), replies),
    ensures
        run_stands(start, replies),
    decreases replies.len(),
{
    if replies.len() > 0 {
        let before = replies.drop_last();
        lemma_run_stands(start, before);
        let ask = protocol::run(BuildRun::begun(start), before).ask;
        if let RunAsk::Perform(end) = ask {
            assert(ended_as(start, before, end));
        }
    }
}

/// The position is read first, before the claim is made and before any walk the claim makes, and
/// the watermark only after it; what follows is fixed by what was read and claimed.
pub proof fn law_the_position_is_read_before_the_claim(start: BuildStart, replies: Seq<RunReply>)
    requires
        protocol::conversation(BuildRun::begun(start), replies),
    ensures
        ({
            let ask = protocol::run(BuildRun::begun(start), replies).ask;
            &&& ask is ReadPosition <==> replies.len() == 0
            &&& replies.len() > 0 ==> replies[0] is Position
            &&& ask is ClaimFirstBuild || ask is ClaimReload ==> replies.len() == 1
            &&& ask is ReadWatermark ==> replies.len() == 2 && replies[1] == RunReply::Reload(
                ReloadClaim::NotOwed,
            )
            &&& ask matches RunAsk::Perform(end) ==> ended_as(start, replies, end)
        }),
{
    lemma_run_stands(start, replies);
}

/// A comparison answers no fact above what was read before the claim, nor above what the scan it
/// used had seen, and it answers only where disk was found to match.
pub proof fn law_a_comparison_answers_only_what_it_covered(
    start: BuildStart,
    replies: Seq<RunReply>,
    end: RunEnd,
    fact: u64,
)
    requires
        protocol::conversation(BuildRun::begun(start), replies),
        protocol::run(BuildRun::begun(start), replies).ask == RunAsk::Perform(end),
        end.steps(start.forced).contains(GraphStep::AnswerChange(fact)),
    ensures
        replies.len() == 3,
        replies[1] == RunReply::Reload(ReloadClaim::NotOwed),
        replies[0] matches RunReply::Position(position) && fact <= position,
        replies[2] matches RunReply::Watermark(watermark) && fact <= watermark,
        end.outcome() is AnsweredWithoutBuilding,
{
    lemma_run_stands(start, replies);
}

/// The marks' budget is spent where a forced attempt was claimed and nowhere else, and a builder is
/// started exactly where the reload slot was granted: a decision that built nothing leaves the
/// budget whole.
pub proof fn law_only_a_claimed_attempt_spends_the_marks(
    start: BuildStart,
    replies: Seq<RunReply>,
    end: RunEnd,
)
    requires
        protocol::conversation(BuildRun::begun(start), replies),
        protocol::run(BuildRun::begun(start), replies).ask == RunAsk::Perform(end),
    ensures
        end.steps(start.forced).contains(GraphStep::SpendMarkAttempt) <==> start.forced && (
        replies[1] == RunReply::Reload(ReloadClaim::Claimed) || replies[1]
            == (RunReply::FirstBuild { claimed: true })),
        end.steps(start.forced).contains(GraphStep::SpawnReload) <==> replies[1]
            == RunReply::Reload(ReloadClaim::Claimed),
{
    lemma_run_stands(start, replies);
    let steps = end.steps(start.forced);
    if end is Claimed {
        if start.forced {
            assert(steps[0] == GraphStep::SpendMarkAttempt);
            assert(steps[1] == GraphStep::SpawnReload);
        } else {
            assert(steps[0] == GraphStep::SpawnReload);
        }
    }
    if start.forced && end == (RunEnd::FirstBuild { claimed: true }) {
        assert(steps[0] == GraphStep::SpendMarkAttempt);
    }
}

/// A claim refused for want of a sponsor is not a comparison that matched: it answers nothing,
/// holds nothing and starts nothing.
pub proof fn law_an_unsponsored_claim_answers_nothing(
    start: BuildStart,
    replies: Seq<RunReply>,
    end: RunEnd,
)
    requires
        protocol::conversation(BuildRun::begun(start), replies),
        protocol::run(BuildRun::begun(start), replies).ask == RunAsk::Perform(end),
        replies[1] == RunReply::Reload(ReloadClaim::Unsponsored),
    ensures
        end.steps(start.forced).len() == 0,
        end.outcome() is Settled,
{
    lemma_run_stands(start, replies);
}

} // verus!
