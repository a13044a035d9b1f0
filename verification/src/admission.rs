//! The ways a build comes to be claimed.
//!
//! A claim reads the lease, which is a file, and may walk the workspace, which takes seconds. So
//! each way to a claim is an owner that asks for one reading at a time, in the order that keeps a
//! reading nobody needs from being made at all.

use crate::debt::{Decision, Facts, Ripeness};
use crate::inner::{Inner, ReloadClaim};
use crate::protocol;
use crate::protocol::Protocol;
use crate::signals;
use crate::types::{GraphFp, GraphStatus};
use vstd::prelude::*;

verus! {

/// What the entry of a first build wants done.
#[derive(Clone, Copy, Debug, PartialEq, Eq, Structural)]
pub enum LoadAsk {
    /// What the failure debt says about its own turn.
    ReadRipeness,
    /// The lifecycle, the lease included.
    ReadFacts,
    /// Ownership could not be confirmed: the ask goes back to the owner, and the decision is held.
    PutBack,
    /// What the ledger would have done under these facts.
    Decide(Facts),
    /// Claim the first build in this mode.
    Claim { forced: bool },
    Done,
}

#[derive(Clone, Copy, Debug, PartialEq, Eq, Structural)]
pub enum LoadReply {
    Ripeness(Option<Ripeness>),
    Facts(Facts),
    Decision(Decision),
    Finished,
}

/// The entry of the boot, of the watcher and of a kick: start the first build if one could be
/// claimed at all.
#[derive(Clone, Copy, Debug, PartialEq, Eq, Structural)]
pub struct EnsureLoading {
    pub ask: LoadAsk,
}

impl EnsureLoading {
    pub open spec fn begun(inner: Inner) -> EnsureLoading {
        EnsureLoading {
            ask: if !inner.startable() {
                LoadAsk::Done
            } else if inner.status is Failed {
                LoadAsk::ReadRipeness
            } else {
                LoadAsk::ReadFacts
            },
        }
    }

    pub open spec fn replied(self, reply: LoadReply) -> EnsureLoading {
        EnsureLoading {
            ask: match (self.ask, reply) {
                (LoadAsk::ReadRipeness, LoadReply::Ripeness(Some(Ripeness::Now))) => {
                    LoadAsk::ReadFacts
                },
                (LoadAsk::ReadFacts, LoadReply::Facts(facts)) => {
                    if facts.owns {
                        LoadAsk::Decide(facts)
                    } else if facts.terminal || facts.stopping {
                        LoadAsk::Done
                    } else {
                        LoadAsk::PutBack
                    }
                },
                (LoadAsk::Decide(_), LoadReply::Decision(decision)) => LoadAsk::Claim {
                    forced: decision.start matches Some(start) && start.forced,
                },
                (_, _) => LoadAsk::Done,
            },
        }
    }

    /// Begin with the slot, and read nothing that can go to disk where no build could be claimed
    /// whatever the lease says. A graph that has failed is the schedule's business: restarted from
    /// here, it would spend its retries outside the schedule that bounds them.
    pub fn begin(inner: &Inner) -> (entry: EnsureLoading)
        ensures
            entry == EnsureLoading::begun(*inner),
    {
        let ask = if !inner.can_start() {
            LoadAsk::Done
        } else if matches!(inner.status, GraphStatus::Failed(_)) {
            LoadAsk::ReadRipeness
        } else {
            LoadAsk::ReadFacts
        };
        EnsureLoading { ask }
    }

    /// Take the reply to what was asked, and say what comes next.
    pub fn reply(self, reply: LoadReply) -> (next: EnsureLoading)
        requires
            self.takes(reply),
        ensures
            next == self.replied(reply),
    {
        let ask = match (self.ask, reply) {
            (LoadAsk::ReadRipeness, LoadReply::Ripeness(ripeness)) => match ripeness {
                Some(Ripeness::Now) => LoadAsk::ReadFacts,
                _ => LoadAsk::Done,
            },
            (LoadAsk::ReadFacts, LoadReply::Facts(facts)) => {
                if facts.owns {
                    LoadAsk::Decide(facts)
                } else if facts.terminal || facts.stopping {
                    // A lease that is gone for good leaves nothing to ask.
                    LoadAsk::Done
                } else {
                    // An unanswered question is not an answer: a build admitted here would write a
                    // whole database for its own publication to throw away.
                    LoadAsk::PutBack
                }
            },
            (LoadAsk::Decide(_), LoadReply::Decision(decision)) => {
                let forced = match decision.start {
                    Some(start) => start.forced,
                    None => false,
                };
                LoadAsk::Claim { forced }
            },
            _ => LoadAsk::Done,
        };
        EnsureLoading { ask }
    }
}

impl Protocol for EnsureLoading {
    type Reply = LoadReply;

    open spec fn takes(self, reply: LoadReply) -> bool {
        match self.ask {
            LoadAsk::ReadRipeness => reply is Ripeness,
            LoadAsk::ReadFacts => reply is Facts,
            LoadAsk::Decide(_) => reply is Decision,
            LoadAsk::PutBack => reply is Finished,
            LoadAsk::Claim { .. } => reply is Finished,
            LoadAsk::Done => false,
        }
    }

    open spec fn after(self, reply: LoadReply) -> EnsureLoading {
        self.replied(reply)
    }
}

/// The readings a conversation with the entry has made so far.
spec fn read_so_far(inner: Inner, replies: Seq<LoadReply>) -> bool {
    let ask = protocol::run(EnsureLoading::begun(inner), replies).ask;
    let failed = inner.status is Failed;
    let first: int = if failed {
        1
    } else {
        0
    };
    &&& !(ask is Done) ==> inner.startable()
    &&& ask is ReadRipeness ==> failed && replies.len() == 0
    &&& failed && replies.len() > 0 && !(ask is Done) ==> replies[0] == LoadReply::Ripeness(
        Some(Ripeness::Now),
    )
    &&& ask is ReadFacts ==> replies.len() == first
    &&& ask is Decide || ask is PutBack ==> replies.len() == first + 1
    &&& ask is Claim ==> replies.len() == first + 2
    &&& ask is Decide ==> replies[first] == LoadReply::Facts(ask->Decide_0) && (ask->Decide_0).owns
    &&& ask is Claim ==> (replies[first] matches LoadReply::Facts(facts) && facts.owns)
    &&& ask is PutBack ==> (replies[first] matches LoadReply::Facts(facts) && !facts.owns
        && !facts.terminal && !facts.stopping)
    &&& ask is Claim ==> (replies[first + 1] matches LoadReply::Decision(decision) && ask->forced
        == (decision.start matches Some(start) && start.forced))
}

proof fn lemma_read_so_far(inner: Inner, replies: Seq<LoadReply>)
    requires
        protocol::conversation(EnsureLoading::begun(inner), replies),
    ensures
        read_so_far(inner, replies),
    decreases replies.len(),
{
    if replies.len() > 0 {
        lemma_read_so_far(inner, replies.drop_last());
    }
}

/// A first build is claimed only on a graph it can be claimed on, only once ownership was
/// confirmed, and on a failed graph only when the schedule calls the retry due. Its mode is the
/// one the decision fixed.
pub proof fn law_a_first_build_is_claimed_only_when_it_is_due(
    inner: Inner,
    replies: Seq<LoadReply>,
)
    requires
        protocol::conversation(EnsureLoading::begun(inner), replies),
        protocol::run(EnsureLoading::begun(inner), replies).ask is Claim,
    ensures
        inner.startable(),
        inner.status is Failed ==> replies[0] == LoadReply::Ripeness(Some(Ripeness::Now)),
        replies.len() >= 2,
        replies[replies.len() - 2] matches LoadReply::Facts(facts) && facts.owns,
        replies[replies.len() - 1] matches LoadReply::Decision(decision) && protocol::run(
            EnsureLoading::begun(inner),
            replies,
        ).ask->forced == (decision.start matches Some(start) && start.forced),
{
    lemma_read_so_far(inner, replies);
}

/// An ask is put back only where ownership could not be confirmed on a graph that is neither lost
/// nor leaving: nothing is claimed there, and nothing is dropped.
pub proof fn law_an_unconfirmed_lease_keeps_the_ask(inner: Inner, replies: Seq<LoadReply>)
    requires
        protocol::conversation(EnsureLoading::begun(inner), replies),
        protocol::run(EnsureLoading::begun(inner), replies).ask is PutBack,
    ensures
        replies.len() >= 1,
        replies.last() matches LoadReply::Facts(facts) && !facts.owns && !facts.terminal
            && !facts.stopping,
{
    lemma_read_so_far(inner, replies);
}

/// A graph no build could be claimed on reads nothing at all, the lease included.
pub proof fn law_a_published_graph_reads_no_lease(inner: Inner)
    ensures
        !inner.startable() ==> EnsureLoading::begun(inner).ask is Done,
        inner.status is Ready ==> EnsureLoading::begun(inner).ask is Done,
{
}

/// How long a walk of disk may stand for a new one, in nanoseconds.
pub const DRIFT_CHECK_INTERVAL: u64 = 2_000_000_000;

/// What a claim on the reload slot wants done.
#[derive(Clone, Copy, Debug, PartialEq, Eq)]
pub enum ClaimAsk {
    ConfirmOwnership,
    /// The fingerprint of disk, and whether the scan behind it was clean. A walk within
    /// [`DRIFT_CHECK_INTERVAL`] may stand for a new one while nothing was delivered.
    MeasureDisk,
    /// The position of the fact stream, read before the slot is granted: it can only under-claim.
    ReadCutoff { disk: Option<(GraphFp, bool)> },
    /// The refusals and the grant, in one hold of the slot's lock.
    Grant { disk: Option<(GraphFp, bool)>, scan_cutoff: u64 },
    Done(ReloadClaim),
}

#[derive(Clone, Copy, Debug, PartialEq, Eq)]
pub enum ClaimReply {
    Owns(bool),
    Disk(Option<(GraphFp, bool)>),
    Cutoff(u64),
    Granted(ReloadClaim),
}

/// A claim on the single reload slot, on its way to the lock that grants it.
#[derive(Clone, Copy, Debug, PartialEq, Eq)]
pub struct ReloadAttempt {
    /// The caller's debt cannot be answered by a comparison.
    pub force: bool,
    pub ask: ClaimAsk,
}

impl ReloadAttempt {
    pub open spec fn begun(force: bool) -> ReloadAttempt {
        ReloadAttempt { force, ask: ClaimAsk::ConfirmOwnership }
    }

    pub open spec fn replied(self, reply: ClaimReply) -> ReloadAttempt {
        let ask = match (self.ask, reply) {
            (ClaimAsk::ConfirmOwnership, ClaimReply::Owns(owns)) => {
                if !owns {
                    ClaimAsk::Done(ReloadClaim::Held)
                } else if self.force {
                    ClaimAsk::ReadCutoff { disk: None }
                } else {
                    ClaimAsk::MeasureDisk
                }
            },
            (ClaimAsk::MeasureDisk, ClaimReply::Disk(disk)) => ClaimAsk::ReadCutoff { disk },
            (ClaimAsk::ReadCutoff { disk }, ClaimReply::Cutoff(scan_cutoff)) => ClaimAsk::Grant {
                disk,
                scan_cutoff,
            },
            (ClaimAsk::Grant { .. }, ClaimReply::Granted(claim)) => ClaimAsk::Done(claim),
            (ask, _) => ask,
        };
        ReloadAttempt { force: self.force, ask }
    }

    pub fn begin(force: bool) -> (attempt: ReloadAttempt)
        ensures
            attempt == ReloadAttempt::begun(force),
    {
        ReloadAttempt { force, ask: ClaimAsk::ConfirmOwnership }
    }

    /// Take the reply to what was asked, and say what comes next. Ownership comes ahead of the
    /// walk: a superseded daemon must not even pay for drift detection it may not act on.
    pub fn reply(self, reply: ClaimReply) -> (next: ReloadAttempt)
        requires
            self.takes(reply),
        ensures
            next == self.replied(reply),
    {
        let ask = match (self.ask, reply) {
            (ClaimAsk::ConfirmOwnership, ClaimReply::Owns(owns)) => {
                if !owns {
                    ClaimAsk::Done(ReloadClaim::Held)
                } else if self.force {
                    ClaimAsk::ReadCutoff { disk: None }
                } else {
                    ClaimAsk::MeasureDisk
                }
            },
            (ClaimAsk::MeasureDisk, ClaimReply::Disk(disk)) => ClaimAsk::ReadCutoff { disk },
            (ClaimAsk::ReadCutoff { disk }, ClaimReply::Cutoff(scan_cutoff)) => ClaimAsk::Grant {
                disk,
                scan_cutoff,
            },
            (ClaimAsk::Grant { disk: _, scan_cutoff: _ }, ClaimReply::Granted(claim)) => {
                ClaimAsk::Done(claim)
            },
            (ask, _) => ask,
        };
        ReloadAttempt { force: self.force, ask }
    }
}

impl Protocol for ReloadAttempt {
    type Reply = ClaimReply;

    open spec fn takes(self, reply: ClaimReply) -> bool {
        match self.ask {
            ClaimAsk::ConfirmOwnership => reply is Owns,
            ClaimAsk::MeasureDisk => reply is Disk,
            ClaimAsk::ReadCutoff { .. } => reply is Cutoff,
            ClaimAsk::Grant { .. } => reply is Granted,
            ClaimAsk::Done(_) => false,
        }
    }

    open spec fn after(self, reply: ClaimReply) -> ReloadAttempt {
        self.replied(reply)
    }
}

/// What a claim has read when it asks for the grant.
spec fn measured_so_far(force: bool, replies: Seq<ClaimReply>) -> bool {
    let attempt = protocol::run(ReloadAttempt::begun(force), replies);
    let ask = attempt.ask;
    let walked: int = if force {
        0
    } else {
        1
    };
    &&& attempt.force == force
    &&& ask is ConfirmOwnership ==> replies.len() == 0
    &&& !(ask is ConfirmOwnership) ==> replies.len() > 0 && replies[0] is Owns
    &&& ask is MeasureDisk ==> replies.len() == 1 && !force
    &&& ask is ReadCutoff ==> replies.len() == walked + 1
    &&& ask is Grant ==> replies.len() == walked + 2
    &&& ask is MeasureDisk || ask is ReadCutoff || ask is Grant ==> replies[0] == ClaimReply::Owns(
        true,
    )
    &&& ask is ReadCutoff ==> (if force {
        ask->ReadCutoff_disk is None
    } else {
        replies[1] == ClaimReply::Disk(ask->ReadCutoff_disk)
    })
    &&& ask is Grant ==> (if force {
        ask->Grant_disk is None
    } else {
        replies[1] == ClaimReply::Disk(ask->Grant_disk)
    }) && replies[walked + 1] == ClaimReply::Cutoff(ask->scan_cutoff)
}

proof fn lemma_measured_so_far(force: bool, replies: Seq<ClaimReply>)
    requires
        protocol::conversation(ReloadAttempt::begun(force), replies),
    ensures
        measured_so_far(force, replies),
    decreases replies.len(),
{
    if replies.len() > 0 {
        lemma_measured_so_far(force, replies.drop_last());
    }
}

/// A claim reaches the grant with ownership confirmed first, a comparison's fingerprint measured
/// after that, and the position its proof may cover read after the walk and before the slot. A
/// forced claim walks nothing.
pub proof fn law_a_claim_is_granted_on_what_it_read(force: bool, replies: Seq<ClaimReply>)
    requires
        protocol::conversation(ReloadAttempt::begun(force), replies),
        protocol::run(ReloadAttempt::begun(force), replies).ask is Grant,
    ensures
        ({
            let ask = protocol::run(ReloadAttempt::begun(force), replies).ask;
            &&& replies[0] == ClaimReply::Owns(true)
            &&& replies.last() == ClaimReply::Cutoff(ask->scan_cutoff)
            &&& force ==> replies.len() == 2 && ask->Grant_disk is None
            &&& !force ==> replies.len() == 3 && replies[1] == ClaimReply::Disk(ask->Grant_disk)
        }),
{
    lemma_measured_so_far(force, replies);
}

/// A claim by a daemon that cannot confirm its lease is held, and measures nothing.
pub proof fn law_an_unconfirmed_claim_is_held(force: bool)
    ensures
        ReloadAttempt::begun(force).replied(ClaimReply::Owns(false)).ask == ClaimAsk::Done(
            ReloadClaim::Held,
        ),
{
}

/// What a kick wants done.
#[derive(Clone, Copy, Debug, PartialEq, Eq, Structural)]
pub enum KickAsk {
    /// Take the ask a request left.
    TakeAsk,
    /// Answer it, by the entry the boot and the watcher use.
    EnsureLoading,
    /// Let go of the kick, and only then look for another ask.
    Release,
    /// Read how long the decision is held, and the clock.
    ReadHold,
    /// Wait the hold out, for as long as the daemon stays.
    Sleep(u64),
    /// Take the kick again.
    Resume,
    Done,
}

#[derive(Clone, Copy, Debug, PartialEq, Eq, Structural)]
pub enum KickReply {
    Taken(bool),
    Finished,
    Asked(bool),
    Held { until: Option<u64>, now: u64 },
    /// Whether the daemon stopped while the hold was waited out.
    Slept { stopped: bool },
    Resumed(bool),
}

/// The carrier of a request's ask where no watcher will come for it: short-lived, single-flight,
/// and deciding nothing itself.
#[derive(Clone, Copy, Debug, PartialEq, Eq, Structural)]
pub struct Kick {
    pub ask: KickAsk,
}

impl Kick {
    pub open spec fn replied(self, reply: KickReply) -> Kick {
        Kick {
            ask: match (self.ask, reply) {
                (KickAsk::TakeAsk, KickReply::Taken(taken)) => {
                    if taken {
                        KickAsk::EnsureLoading
                    } else {
                        KickAsk::Release
                    }
                },
                (KickAsk::EnsureLoading, KickReply::Finished) => KickAsk::Release,
                (KickAsk::Release, KickReply::Asked(asked)) => {
                    if asked {
                        KickAsk::ReadHold
                    } else {
                        KickAsk::Done
                    }
                },
                (KickAsk::ReadHold, KickReply::Held { until, now }) => {
                    match until {
                        Some(until) => KickAsk::Sleep(signals::remaining(until, now)),
                        None => KickAsk::Resume,
                    }
                },
                (KickAsk::Sleep(_), KickReply::Slept { stopped }) => {
                    if stopped {
                        KickAsk::Done
                    } else {
                        KickAsk::Resume
                    }
                },
                (KickAsk::Resume, KickReply::Resumed(resumed)) => {
                    if resumed {
                        KickAsk::TakeAsk
                    } else {
                        KickAsk::Done
                    }
                },
                (_, _) => KickAsk::Done,
            },
        }
    }

    /// A kick that has just been taken.
    pub fn begin() -> (kick: Kick)
        ensures
            kick == (Kick { ask: KickAsk::TakeAsk }),
    {
        Kick { ask: KickAsk::TakeAsk }
    }

    /// Take the reply to what was asked, and say what comes next. An ask the decision put back
    /// under a hold is not due before the hold runs out, so a lease that stays unconfirmed is
    /// looked at on the hold's cadence and never in a loop.
    pub fn reply(self, reply: KickReply) -> (next: Kick)
        requires
            self.takes(reply),
        ensures
            next == self.replied(reply),
    {
        let ask = match (self.ask, reply) {
            (KickAsk::TakeAsk, KickReply::Taken(taken)) => {
                if taken {
                    KickAsk::EnsureLoading
                } else {
                    KickAsk::Release
                }
            },
            (KickAsk::EnsureLoading, KickReply::Finished) => KickAsk::Release,
            (KickAsk::Release, KickReply::Asked(asked)) => {
                if asked {
                    KickAsk::ReadHold
                } else {
                    KickAsk::Done
                }
            },
            (KickAsk::ReadHold, KickReply::Held { until, now }) => match until {
                Some(until) => KickAsk::Sleep(until.saturating_sub(now)),
                None => KickAsk::Resume,
            },
            (KickAsk::Sleep(_), KickReply::Slept { stopped }) => {
                if stopped {
                    KickAsk::Done
                } else {
                    KickAsk::Resume
                }
            },
            (KickAsk::Resume, KickReply::Resumed(resumed)) => {
                if resumed {
                    KickAsk::TakeAsk
                } else {
                    KickAsk::Done
                }
            },
            _ => KickAsk::Done,
        };
        Kick { ask }
    }
}

impl Protocol for Kick {
    type Reply = KickReply;

    open spec fn takes(self, reply: KickReply) -> bool {
        match self.ask {
            KickAsk::TakeAsk => reply is Taken,
            KickAsk::EnsureLoading => reply is Finished,
            KickAsk::Release => reply is Asked,
            KickAsk::ReadHold => reply is Held,
            KickAsk::Sleep(_) => reply is Slept,
            KickAsk::Resume => reply is Resumed,
            KickAsk::Done => false,
        }
    }

    open spec fn after(self, reply: KickReply) -> Kick {
        self.replied(reply)
    }
}

/// A kick ends only where no ask was left behind when it let go, where the daemon stopped while a
/// hold was waited out, or where it could not be taken again.
pub proof fn law_a_kick_leaves_no_ask_without_a_carrier(replies: Seq<KickReply>)
    requires
        protocol::conversation(Kick { ask: KickAsk::TakeAsk }, replies),
        protocol::run(Kick { ask: KickAsk::TakeAsk }, replies).ask is Done,
    ensures
        replies.len() > 0,
        ({
            ||| replies.last() == KickReply::Asked(false)
            ||| replies.last() == KickReply::Slept { stopped: true }
            ||| replies.last() == KickReply::Resumed(false)
        }),
{
}

/// Between two answers of the same kick it has let go of itself and taken itself again: what it
/// answers, it answers with an ask it took while it held the kick.
pub proof fn law_a_kick_answers_only_what_it_took(replies: Seq<KickReply>)
    requires
        protocol::conversation(Kick { ask: KickAsk::TakeAsk }, replies),
        protocol::run(Kick { ask: KickAsk::TakeAsk }, replies).ask is EnsureLoading,
    ensures
        replies.len() > 0,
        replies.last() == KickReply::Taken(true),
        replies.len() > 1 ==> replies[replies.len() - 2] == KickReply::Resumed(true),
{
    let before = replies.drop_last();
    if before.len() > 0 {
        assert(before.last() == replies[replies.len() - 2]);
    }
}

} // verus!
