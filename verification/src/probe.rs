//! A look at what the published build could not read.
//!
//! Nothing on the fact stream announces a restored permission, so a publication that left files
//! unread is looked at again on a schedule of its own.

use crate::debt::{Facts, ProbeResult};
use crate::inner::Inner;
use crate::intake::GraphStep;
use crate::protocol;
use crate::protocol::Protocol;
use vstd::prelude::*;

verus! {

/// What a probe wants done.
#[derive(Clone, Copy, Debug, PartialEq, Eq, Structural)]
pub enum ProbeAsk {
    /// The lifecycle, the lease included: read where it may go to disk, never under a lock.
    ReadFacts,
    /// The reservation, by [`reserve`], under the locks of the slot and of the ledger.
    Reserve(Facts),
    /// The walk itself, with no lock held.
    Walk,
    /// Whether the lease is terminal, before the locks are taken again.
    ReadLease,
    /// The locks again, and whether the daemon has asked its owners to leave.
    ReadStop { terminal: bool },
    /// The reservation is given back: the revisit stays finite, and nothing is recorded.
    Release(ProbeResult),
    /// What was measured goes to the schedule.
    Finish,
    /// There is something new to decide on.
    Act,
    Done,
}

#[derive(Clone, Copy, Debug, PartialEq, Eq, Structural)]
pub enum ProbeReply {
    Facts(Facts),
    Reserved(bool),
    /// Whether the walk could look at all.
    Walked { looked: bool },
    Lease { terminal: bool },
    Stop { stopped: bool },
    Result(ProbeResult),
    Finished,
}

/// One recovery probe.
#[derive(Clone, Copy, Debug, PartialEq, Eq, Structural)]
pub struct Probe {
    pub ask: ProbeAsk,
}

impl Probe {
    pub open spec fn begun() -> Probe {
        Probe { ask: ProbeAsk::ReadFacts }
    }

    pub open spec fn replied(self, reply: ProbeReply) -> Probe {
        Probe {
            ask: match (self.ask, reply) {
                (ProbeAsk::ReadFacts, ProbeReply::Facts(facts)) => ProbeAsk::Reserve(facts),
                (ProbeAsk::Reserve(_), ProbeReply::Reserved(reserved)) => {
                    if reserved {
                        ProbeAsk::Walk
                    } else {
                        ProbeAsk::Done
                    }
                },
                (ProbeAsk::Walk, ProbeReply::Walked { looked }) => {
                    if looked {
                        ProbeAsk::ReadLease
                    } else {
                        ProbeAsk::Release(ProbeResult::CouldNotLook)
                    }
                },
                (ProbeAsk::ReadLease, ProbeReply::Lease { terminal }) => ProbeAsk::ReadStop {
                    terminal,
                },
                (ProbeAsk::ReadStop { terminal }, ProbeReply::Stop { stopped }) => {
                    if terminal || stopped {
                        ProbeAsk::Release(ProbeResult::Obsolete)
                    } else {
                        ProbeAsk::Finish
                    }
                },
                (ProbeAsk::Finish, ProbeReply::Result(ProbeResult::NewEvidence)) => ProbeAsk::Act,
                (_, _) => ProbeAsk::Done,
            },
        }
    }

    pub fn begin() -> (probe: Probe)
        ensures
            probe == Probe::begun(),
    {
        Probe { ask: ProbeAsk::ReadFacts }
    }

    /// Take the reply to what was asked, and say what comes next.
    pub fn reply(self, reply: ProbeReply) -> (next: Probe)
        requires
            self.takes(reply),
        ensures
            next == self.replied(reply),
    {
        let ask = match (self.ask, reply) {
            (ProbeAsk::ReadFacts, ProbeReply::Facts(facts)) => ProbeAsk::Reserve(facts),
            (ProbeAsk::Reserve(_), ProbeReply::Reserved(reserved)) => {
                if reserved {
                    ProbeAsk::Walk
                } else {
                    ProbeAsk::Done
                }
            },
            (ProbeAsk::Walk, ProbeReply::Walked { looked }) => {
                if looked {
                    ProbeAsk::ReadLease
                } else {
                    // Nothing was observed, so nothing is recorded about the workspace, but the
                    // attempt is paced all the same.
                    ProbeAsk::Release(ProbeResult::CouldNotLook)
                }
            },
            (ProbeAsk::ReadLease, ProbeReply::Lease { terminal }) => ProbeAsk::ReadStop { terminal },
            (ProbeAsk::ReadStop { terminal }, ProbeReply::Stop { stopped }) => {
                if terminal || stopped {
                    // Measured, but by an owner who may no longer act.
                    ProbeAsk::Release(ProbeResult::Obsolete)
                } else {
                    ProbeAsk::Finish
                }
            },
            (ProbeAsk::Finish, ProbeReply::Result(result)) => match result {
                ProbeResult::NewEvidence => ProbeAsk::Act,
                _ => ProbeAsk::Done,
            },
            _ => ProbeAsk::Done,
        };
        Probe { ask }
    }
}

impl Protocol for Probe {
    type Reply = ProbeReply;

    open spec fn takes(self, reply: ProbeReply) -> bool {
        match self.ask {
            ProbeAsk::ReadFacts => reply is Facts,
            ProbeAsk::Reserve(_) => reply is Reserved,
            ProbeAsk::Walk => reply is Walked,
            ProbeAsk::ReadLease => reply is Lease,
            ProbeAsk::ReadStop { .. } => reply is Stop,
            ProbeAsk::Release(_) => reply is Finished,
            ProbeAsk::Finish => reply is Result,
            ProbeAsk::Act => reply is Finished,
            ProbeAsk::Done => false,
        }
    }

    open spec fn after(self, reply: ProbeReply) -> Probe {
        self.replied(reply)
    }
}

/// The lifecycle a reservation is decided on: as it stands under the lock, with the lease's half
/// of the earlier reading carried over.
pub open spec fn live_reading(inner: Inner, facts: Facts, stopping: bool) -> Facts {
    Facts {
        in_flight: inner.drifting() || inner.slot_taken(),
        owns: facts.owns,
        ..inner.facts_under(facts.terminal, facts.owns, stopping)
    }
}

/// Reserve the walk, if it is still owed. Between deciding to look and reserving the walk a build
/// can be admitted, a stop can land and the publication can be replaced, so `decide` is asked
/// again, of the lifecycle as it stands; `take` is asked for the walk's plan only where it still
/// says to look, and finds the work owned where another caller has it.
pub fn reserve<P, D: FnOnce(Facts) -> bool, R: FnOnce() -> Option<P>>(
    inner: &Inner,
    facts: Facts,
    stopping: bool,
    decide: D,
    take: R,
) -> (plan: Option<P>)
    requires
        decide.requires((live_reading(*inner, facts, stopping),)),
        decide.ensures((live_reading(*inner, facts, stopping),), true) ==> take.requires(()),
    ensures
        ({
            ||| decide.ensures((live_reading(*inner, facts, stopping),), true) && take.ensures(
                (),
                plan,
            )
            ||| decide.ensures((live_reading(*inner, facts, stopping),), false) && plan is None
        }),
{
    let live = inner.live_facts(facts, stopping);
    if decide(live) {
        take()
    } else {
        None
    }
}

/// What follows new evidence: the watcher is woken, and everything owed is decided on this thread.
pub fn evidence_found() -> (steps: Vec<GraphStep>)
    ensures
        steps@ == seq![GraphStep::Wake, GraphStep::Drive],
{
    vec![GraphStep::Wake, GraphStep::Drive]
}

/// Where a conversation with a probe stands.
spec fn stands(replies: Seq<ProbeReply>) -> bool {
    let ask = protocol::run(Probe::begun(), replies).ask;
    let n = replies.len() as int;
    &&& ask is ReadFacts ==> n == 0
    &&& ask is Reserve ==> n == 1
    &&& ask is Walk ==> n == 2
    &&& ask is ReadLease ==> n == 3
    &&& ask is ReadStop ==> n == 4 && replies[3] == (ProbeReply::Lease {
        terminal: ask->terminal,
    })
    &&& ask is Finish ==> n == 5 && replies[3] == (ProbeReply::Lease { terminal: false })
        && replies[4] == (ProbeReply::Stop { stopped: false })
    &&& ask is Release ==> n == 3 || n == 5
    &&& ask is Act ==> n == 6 && replies[5] == ProbeReply::Result(ProbeResult::NewEvidence)
    &&& n >= 2 && !(ask is Done) ==> replies[1] == ProbeReply::Reserved(true)
    &&& ask is Act ==> protocol::run(Probe::begun(), replies.take(5)).ask is Finish
}

/// A reservation has been settled on the way here.
pub open spec fn settled(replies: Seq<ProbeReply>) -> bool {
    exists|k: int|
        0 <= k < replies.len() && {
            ||| (#[trigger] protocol::run(Probe::begun(), replies.take(k))).ask is Release
            ||| protocol::run(Probe::begun(), replies.take(k)).ask is Finish
        }
}

proof fn lemma_stands(replies: Seq<ProbeReply>)
    requires
        protocol::conversation(Probe::begun(), replies),
    ensures
        stands(replies),
        protocol::run(Probe::begun(), replies).ask is Done && replies.len() >= 2 && replies[1]
            == ProbeReply::Reserved(true) ==> settled(replies),
    decreases replies.len(),
{
    if replies.len() > 0 {
        let before = replies.drop_last();
        lemma_stands(before);
        let asked = protocol::run(Probe::begun(), before).ask;
        assert(replies.take(replies.len() - 1) == before);
        if asked is Finish || asked is Release {
            assert(protocol::run(Probe::begun(), replies.take(replies.len() - 1)).ask == asked);
        }
        if asked is Act {
            assert(replies.take(5) == before.take(5));
            assert(protocol::run(Probe::begun(), replies.take(5)).ask is Finish);
        }
        if asked is Finish {
            assert(replies.take(5) == before);
        }
    }
}

/// A reserved walk is always settled: a probe that ends after a reservation has given it back or
/// handed its measurement to the schedule.
pub proof fn law_a_reserved_probe_is_settled(replies: Seq<ProbeReply>)
    requires
        protocol::conversation(Probe::begun(), replies),
        protocol::run(Probe::begun(), replies).ask is Done,
        replies.len() >= 2,
        replies[1] == ProbeReply::Reserved(true),
    ensures
        settled(replies),
{
    lemma_stands(replies);
}

/// What was measured reaches the schedule only through an owner who may still act: the lease was
/// not terminal and no stop had landed.
pub proof fn law_a_leaving_owner_records_no_probe(replies: Seq<ProbeReply>)
    requires
        protocol::conversation(Probe::begun(), replies),
        protocol::run(Probe::begun(), replies).ask is Finish,
    ensures
        replies.len() == 5,
        replies[3] == (ProbeReply::Lease { terminal: false }),
        replies[4] == (ProbeReply::Stop { stopped: false }),
{
    lemma_stands(replies);
}

/// A probe acts only on new evidence, and only the schedule says that there is any.
pub proof fn law_a_probe_acts_only_on_new_evidence(replies: Seq<ProbeReply>)
    requires
        protocol::conversation(Probe::begun(), replies),
        protocol::run(Probe::begun(), replies).ask is Act,
    ensures
        replies.len() == 6,
        replies.last() == ProbeReply::Result(ProbeResult::NewEvidence),
{
    lemma_stands(replies);
}

/// A walk is reserved against the world as it stands: a graph whose slot is taken reads as having
/// a build in flight, whatever the decision to look had read.
pub proof fn law_a_probe_sees_a_claim_that_landed(inner: Inner, facts: Facts, stopping: bool)
    ensures
        inner.slot_taken() ==> live_reading(inner, facts, stopping).in_flight,
        live_reading(inner, facts, stopping).stopping == stopping,
        live_reading(inner, facts, stopping).owns == facts.owns,
        live_reading(inner, facts, stopping).terminal == facts.terminal,
{
}

} // verus!
