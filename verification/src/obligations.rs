//! What becomes of the refreshes a publish hook owes.
//!
//! Topology context and search roots are owed apart. What is owed has a revision, and a reply
//! answers the revision it was offered under: one raised while an offer was out is a new offer. An
//! offer that was refused is not made again at once.

use crate::debt::HookDebt;
use crate::executor;
use crate::executor::{Drive, DriveReply, Executor};
use crate::inner::Inner;
use crate::intake::GraphStep;
use crate::protocol;
use crate::publish;
use crate::publish::{HookCall, HookOffer, MarkCharge, OfferAsk, OfferReply, PassReply, PublishPass};
use crate::types::GraphPublishOutcome;
use vstd::prelude::*;

verus! {

/// What a ledger holds of a hook's obligations.
pub struct HookStanding {
    pub revision: nat,
    pub owed: HookDebt,
    /// What is owed was refused, and waits until a pause is over.
    pub paced: bool,
}

impl HookStanding {
    /// What a decision taken within the pause offers.
    pub open spec fn offered(self) -> HookDebt {
        if self.paced {
            HookDebt { topology: false, roots: false }
        } else {
            self.owed
        }
    }

    /// What is owed beyond this. What is raised is a new offer, and waits for nothing.
    pub open spec fn raised(self, more: HookDebt) -> HookStanding {
        HookStanding {
            revision: if more.owed() {
                self.revision + 1
            } else {
                self.revision
            },
            owed: HookDebt {
                topology: self.owed.topology || more.topology,
                roots: self.owed.roots || more.roots,
            },
            paced: self.paced && !more.owed(),
        }
    }

    /// What is owed once a reply to the offer of this revision is in. A reply under another number
    /// answers nothing.
    pub open spec fn answered(self, revision: u64, handled: HookDebt) -> HookStanding {
        if self.revision == revision {
            HookStanding {
                owed: HookDebt {
                    topology: self.owed.topology && !handled.topology,
                    roots: self.owed.roots && !handled.roots,
                },
                ..self
            }
        } else {
            self
        }
    }

    /// A refusal earns a pause, if it is of the revision that stands.
    pub open spec fn refused(self, revision: u64) -> HookStanding {
        HookStanding { paced: self.paced || self.revision == revision, ..self }
    }

    /// What is owed after one step.
    pub open spec fn after(self, step: GraphStep) -> HookStanding {
        match step {
            GraphStep::HookHandled { revision, handled } => self.answered(revision, handled),
            GraphStep::HookRefused { revision } => self.refused(revision),
            GraphStep::RecordHook(left) => self.raised(left),
            GraphStep::PaceHookRefusal => HookStanding { paced: true, ..self },
            _ => self,
        }
    }

    /// What is owed after these steps.
    pub open spec fn after_all(self, steps: Seq<GraphStep>) -> HookStanding
        decreases steps.len(),
    {
        if steps.len() == 0 {
            self
        } else {
            self.after_all(steps.drop_last()).after(steps.last())
        }
    }
}

proof fn lemma_after_push(standing: HookStanding, steps: Seq<GraphStep>, step: GraphStep)
    ensures
        standing.after_all(steps.push(step)) == standing.after_all(steps).after(step),
{
    assert(steps.push(step).drop_last() =~= steps);
}

proof fn lemma_pass_reported(
    standing: HookStanding,
    revision: u64,
    topology: bool,
    marks: Option<MarkCharge>,
    outcome: GraphPublishOutcome,
)
    ensures
        ({
            let told = standing.after_all(
                publish::pass_report(revision, topology, marks, outcome),
            );
            let left = standing.answered(
                revision,
                HookDebt { topology: outcome.topology_handled, roots: outcome.roots_handled },
            ).raised(publish::left_owed(topology, outcome));
            &&& told.revision == left.revision
            &&& told.owed == left.owed
            &&& told.paced == (left.paced || (!outcome.topology_handled && !outcome.roots_handled))
        }),
{
    let nothing = Seq::<GraphStep>::empty();
    let handled = HookDebt { topology: outcome.topology_handled, roots: outcome.roots_handled };
    let first = GraphStep::HookHandled { revision, handled };
    let second = GraphStep::RecordHook(publish::left_owed(topology, outcome));
    lemma_after_push(standing, nothing, first);
    lemma_after_push(standing, nothing.push(first), second);
    let answered = nothing.push(first).push(second);
    assert(answered =~= seq![first, second]);
    lemma_after_push(standing, answered, GraphStep::PaceHookRefusal);
    if let Some(charge) = marks {
        lemma_after_push(
            standing,
            answered,
            GraphStep::ConsumeMarks { observed: charge.observed, bound: charge.bound },
        );
    }
}

/// A pass leaves owed exactly what it asked for and the hook refused: a topology refresh where the
/// build changed the topology or an earlier one was still owed, and a search-root refresh always.
/// What was handled is not raised again, and a hook that took nothing is left alone for a while.
pub proof fn law_a_pass_leaves_owed_what_was_refused(
    standing: HookStanding,
    revision: u64,
    topology_changed: bool,
    marks: Option<MarkCharge>,
    outcome: GraphPublishOutcome,
)
    requires
        standing.revision == revision,
    ensures
        ({
            let topology = topology_changed || standing.owed.topology;
            let left = standing.after_all(
                publish::pass_report(revision, topology, marks, outcome),
            );
            &&& left.owed.topology == (topology && !outcome.topology_handled)
            &&& left.owed.roots == !outcome.roots_handled
            &&& !outcome.topology_handled && !outcome.roots_handled ==> left.paced
        }),
{
    lemma_pass_reported(
        standing,
        revision,
        topology_changed || standing.owed.topology,
        marks,
        outcome,
    );
}

/// An offer clears what the hook took of what was owed, and nothing else; one nothing was taken of
/// is paced.
pub proof fn law_an_offer_leaves_owed_what_was_refused(
    standing: HookStanding,
    revision: u64,
    outcome: GraphPublishOutcome,
)
    requires
        standing.revision == revision,
    ensures
        ({
            let handled = publish::taken(standing.owed, outcome);
            let left = standing.after_all(publish::offer_report(revision, handled));
            &&& left.revision == standing.revision
            &&& left.owed.topology == (standing.owed.topology && !outcome.topology_handled)
            &&& left.owed.roots == (standing.owed.roots && !outcome.roots_handled)
            &&& left.paced == (standing.paced || !handled.owed())
        }),
{
    lemma_offer_reported(standing, revision, publish::taken(standing.owed, outcome));
}

proof fn lemma_offer_reported(standing: HookStanding, revision: u64, handled: HookDebt)
    ensures
        standing.after_all(publish::offer_report(revision, handled)) == (if handled.owed() {
            standing.answered(revision, handled)
        } else {
            standing.answered(revision, handled).refused(revision)
        }),
{
    let nothing = Seq::<GraphStep>::empty();
    let first = GraphStep::HookHandled { revision, handled };
    let second = GraphStep::HookRefused { revision };
    lemma_after_push(standing, nothing, first);
    lemma_after_push(standing, nothing.push(first), second);
    assert(nothing.push(first) =~= seq![first]);
    assert(nothing.push(first).push(second) =~= seq![first, second]);
}

/// What is raised while an offer or a pass is out survives its reply, however much of the earlier
/// revision the hook took: the mask cannot tell the two apart, and only the revision can.
pub proof fn law_a_raised_revision_survives_the_old_reply(
    standing: HookStanding,
    revision: u64,
    more: HookDebt,
    handled: HookDebt,
    topology: bool,
    marks: Option<MarkCharge>,
    outcome: GraphPublishOutcome,
)
    requires
        standing.revision == revision,
        more.owed(),
    ensures
        ({
            let raised = standing.raised(more);
            let offered = raised.after_all(publish::offer_report(revision, handled));
            let passed = raised.after_all(publish::pass_report(revision, topology, marks, outcome));
            &&& offered == raised
            &&& more.topology ==> passed.owed.topology
            &&& more.roots ==> passed.owed.roots
        }),
{
    lemma_offer_reported(standing.raised(more), revision, handled);
    lemma_pass_reported(standing.raised(more), revision, topology, marks, outcome);
}

/// How often an offer called the hook.
pub open spec fn calls(replies: Seq<OfferReply>) -> nat
    decreases replies.len(),
{
    if replies.len() == 0 {
        0
    } else {
        calls(replies.drop_last()) + if replies.last() is Outcome {
            1nat
        } else {
            0nat
        }
    }
}

/// How often a pass called the hook.
pub open spec fn pass_calls(replies: Seq<PassReply>) -> nat
    decreases replies.len(),
{
    if replies.len() == 0 {
        0
    } else {
        pass_calls(replies.drop_last()) + if replies.last() is Outcome {
            1nat
        } else {
            0nat
        }
    }
}

/// Where a conversation with an offer stands.
spec fn offer_stands(inner: Inner, replies: Seq<OfferReply>) -> bool {
    let ask = protocol::run(HookOffer::begun(inner), replies).ask;
    let n = replies.len();
    &&& inner.drifting() ==> n == 0
    &&& n >= 1 ==> replies[0] is Claimed
    &&& n >= 2 ==> replies[0]->owed.owed() && replies[1] is Outcome
    &&& match ask {
        OfferAsk::ClaimHook => n == 0 && !inner.drifting(),
        OfferAsk::Fire { revision, owed, call } => n == 1 && replies[0] == (OfferReply::Claimed {
            revision,
            owed,
        }) && owed.owed() && call == HookCall::of_offer(owed),
        OfferAsk::Report { revision, handled } => n == 2 && replies[0]->revision == revision
            && handled == publish::taken(replies[0]->owed, replies[1]->Outcome_0),
        OfferAsk::Done { acted } => if inner.drifting() {
            !acted
        } else if n == 1 {
            !replies[0]->owed.owed() && !acted
        } else {
            n == 3 && acted == publish::taken(
                replies[0]->owed,
                replies[1]->Outcome_0,
            ).owed()
        },
    }
    &&& calls(replies) == if n >= 2 {
        1nat
    } else {
        0nat
    }
}

proof fn lemma_offer_stands(inner: Inner, replies: Seq<OfferReply>)
    requires
        protocol::conversation(HookOffer::begun(inner), replies),
    ensures
        offer_stands(inner, replies),
    decreases replies.len(),
{
    if replies.len() > 0 {
        lemma_offer_stands(inner, replies.drop_last());
    }
}

/// An offer calls the hook once, with no marks and exactly what it claimed as owed, where something
/// is owed and no fresher build is on its way, and not at all otherwise. It has acted exactly where
/// the hook took something of what it was called for.
pub proof fn law_an_offer_asks_for_exactly_what_is_owed(
    inner: Inner,
    replies: Seq<OfferReply>,
    acted: bool,
)
    requires
        protocol::conversation(HookOffer::begun(inner), replies),
        protocol::run(HookOffer::begun(inner), replies).ask == (OfferAsk::Done { acted }),
    ensures
        inner.drifting() ==> calls(replies) == 0 && !acted,
        !inner.drifting() ==> {
            &&& replies.len() > 0
            &&& replies[0] matches OfferReply::Claimed { revision, owed } && {
                &&& !owed.owed() ==> calls(replies) == 0 && !acted
                &&& owed.owed() ==> {
                    &&& calls(replies) == 1
                    &&& protocol::run(HookOffer::begun(inner), replies.take(1)).ask == (
                    OfferAsk::Fire {
                        revision,
                        owed,
                        call: HookCall {
                            mark_bound: 0,
                            topology_changed: owed.topology,
                            roots_refresh_requested: owed.roots,
                        },
                    })
                    &&& replies[1] matches OfferReply::Outcome(outcome) && acted == (owed.topology
                        && outcome.topology_handled || owed.roots && outcome.roots_handled)
                }
            }
        },
{
    lemma_offer_stands(inner, replies);
    if replies.len() > 0 {
        let first = replies.take(1);
        protocol::lemma_conversation_so_far(HookOffer::begun(inner), replies, 1);
        lemma_offer_stands(inner, first);
        assert(first.drop_last() =~= Seq::<OfferReply>::empty());
        assert(protocol::run(HookOffer::begun(inner), first.drop_last()) == HookOffer::begun(inner));
        assert(first.last() == replies[0]);
    }
}

proof fn lemma_pass_calls(topology_changed: bool, replies: Seq<PassReply>)
    requires
        protocol::conversation(PublishPass::begun(topology_changed), replies),
    ensures
        ({
            let ask = protocol::run(PublishPass::begun(topology_changed), replies).ask;
            &&& ask is Report || ask is SettleAndDrive ==> pass_calls(replies) == 1
            &&& !(ask is Report) && !(ask is SettleAndDrive) && !(ask is Done) ==> pass_calls(
                replies,
            ) == 0
        }),
    decreases replies.len(),
{
    if replies.len() > 0 {
        lemma_pass_calls(topology_changed, replies.drop_last());
    }
}

/// A pass of an owner of the caches calls the hook once. The call asks for the topology refresh
/// where the build changed the topology or one was owed, and for the search roots always; what is
/// owed afterwards is what it asked for and the hook refused, each obligation by its own half of
/// the reply.
pub proof fn law_a_pass_asks_for_what_it_leaves_owed(
    standing: HookStanding,
    revision: u64,
    topology_changed: bool,
    replies: Seq<PassReply>,
)
    requires
        standing.revision == revision,
        protocol::conversation(PublishPass::begun(topology_changed), replies),
        protocol::run(PublishPass::begun(topology_changed), replies).ask is Report,
        replies[1] == (PassReply::Claimed { revision, owed: standing.owed }),
    ensures
        ({
            let fired = protocol::run(
                PublishPass::begun(topology_changed),
                replies.drop_last(),
            ).ask;
            let told = protocol::run(PublishPass::begun(topology_changed), replies).ask;
            let topology = topology_changed || standing.owed.topology;
            let left = standing.after_all(
                publish::pass_report(
                    told->Report_revision,
                    told->Report_topology,
                    told->Report_marks,
                    told->outcome,
                ),
            );
            &&& pass_calls(replies) == 1
            &&& fired is Fire
            &&& fired->call.topology_changed == topology
            &&& fired->call.roots_refresh_requested
            &&& replies.last() == PassReply::Outcome(told->outcome)
            &&& left.owed.topology == (topology && !told->outcome.topology_handled)
            &&& left.owed.roots == !told->outcome.roots_handled
        }),
{
    let begun = PublishPass::begun(topology_changed);
    let told = protocol::run(begun, replies).ask;
    publish::law_a_pass_charges_what_it_observed(topology_changed, replies);
    lemma_pass_calls(topology_changed, replies);
    let before = replies.drop_last();
    publish::law_every_publication_checks_the_roots(topology_changed, before);
    assert(before[1] == replies[1]);
    law_a_pass_leaves_owed_what_was_refused(
        standing,
        revision,
        topology_changed,
        told->Report_marks,
        told->outcome,
    );
}

/// A drive of a graph that owes nothing but these refreshes: every reading allows a turn, every
/// decision asks for the offer alone, and every offer ends alike.
pub open spec fn owes_only_the_hook(replies: Seq<DriveReply>, offered: HookDebt, acted: bool) -> bool {
    forall|i: int|
        0 <= i < replies.len() ==> match #[trigger] replies[i] {
            DriveReply::Facts(facts) => executor::may_turn(facts),
            DriveReply::Decision(decision) => decision.start is None && !decision.check
                && !decision.probe && decision.flush_hook == offered,
            DriveReply::Flushed(taken) => taken == acted,
            _ => true,
        }
}

/// How many offers a drive made.
pub open spec fn offers(replies: Seq<DriveReply>) -> nat
    decreases replies.len(),
{
    if replies.len() == 0 {
        0
    } else {
        offers(replies.drop_last()) + if replies.last() is Flushed {
            1nat
        } else {
            0nat
        }
    }
}

/// A drive asked for the rest of its work to be handed on.
pub open spec fn latched(drive: Drive, replies: Seq<DriveReply>) -> bool {
    exists|k: int|
        0 <= k <= replies.len() && (#[trigger] protocol::run(drive, replies.take(k))).ask is Latch
}

/// An offer of what stands to a hook that takes nothing.
pub open spec fn offered_in_vain(
    replies: Seq<OfferReply>,
    standing: HookStanding,
    revision: u64,
) -> bool {
    forall|i: int|
        0 <= i < replies.len() ==> match #[trigger] replies[i] {
            OfferReply::Claimed { revision: claimed, owed } => claimed == revision && owed
                == standing.owed,
            OfferReply::Outcome(outcome) => !outcome.topology_handled && !outcome.roots_handled,
            OfferReply::Finished => true,
        }
}

proof fn lemma_drive_of_the_hook(
    executor: Executor,
    replies: Seq<DriveReply>,
    offered: HookDebt,
)
    requires
        protocol::conversation(Drive::begun(true, executor), replies),
        owes_only_the_hook(replies, offered, false),
    ensures
        ({
            let drive = protocol::run(Drive::begun(true, executor), replies);
            &&& drive.turns == 0
            &&& match drive.ask {
                executor::DriveAsk::EntryFacts => offers(replies) == 0,
                executor::DriveAsk::TurnFacts => offers(replies) == 0,
                executor::DriveAsk::Decide(_) => offers(replies) == 0,
                executor::DriveAsk::Flush { acted } => !acted && offered.owed() && offers(replies)
                    == 0,
                executor::DriveAsk::Done => offers(replies) == if offered.owed() {
                    1nat
                } else {
                    0nat
                },
                _ => false,
            }
        }),
    decreases replies.len(),
{
    if replies.len() > 0 {
        let before = replies.drop_last();
        assert forall|i: int| 0 <= i < before.len() implies match #[trigger] before[i] {
            DriveReply::Facts(facts) => executor::may_turn(facts),
            DriveReply::Decision(decision) => decision.start is None && !decision.check
                && !decision.probe && decision.flush_hook == offered,
            DriveReply::Flushed(taken) => taken == false,
            _ => true,
        } by {
            assert(before[i] == replies[i]);
        }
        lemma_drive_of_the_hook(executor, before, offered);
        assert(replies[replies.len() - 1] == replies.last());
    }
}

/// A drive over refused refreshes makes one offer where one is due and none where none is, and
/// hands nothing on: a refusal is not an action, so the turn it is met with is the last.
pub proof fn law_a_refusal_does_not_spin_the_drive(
    executor: Executor,
    replies: Seq<DriveReply>,
    offered: HookDebt,
)
    requires
        protocol::conversation(Drive::begun(true, executor), replies),
        protocol::run(Drive::begun(true, executor), replies).ask is Done,
        owes_only_the_hook(replies, offered, false),
    ensures
        offers(replies) == (if offered.owed() {
            1nat
        } else {
            0nat
        }),
        !latched(Drive::begun(true, executor), replies),
{
    let drive = Drive::begun(true, executor);
    lemma_drive_of_the_hook(executor, replies, offered);
    assert forall|k: int| 0 <= k <= replies.len() implies !((#[trigger] protocol::run(
        drive,
        replies.take(k),
    )).ask is Latch) by {
        let so_far = replies.take(k);
        protocol::lemma_conversation_so_far(drive, replies, k);
        assert(owes_only_the_hook(so_far, offered, false)) by {
            assert forall|i: int| 0 <= i < so_far.len() implies match #[trigger] so_far[i] {
                DriveReply::Facts(facts) => executor::may_turn(facts),
                DriveReply::Decision(decision) => decision.start is None && !decision.check
                    && !decision.probe && decision.flush_hook == offered,
                DriveReply::Flushed(taken) => taken == false,
                _ => true,
            } by {
                assert(so_far[i] == replies[i]);
            }
        }
        lemma_drive_of_the_hook(executor, so_far, offered);
    }
}

proof fn lemma_offer_in_vain(
    inner: Inner,
    replies: Seq<OfferReply>,
    standing: HookStanding,
    revision: u64,
)
    requires
        protocol::conversation(HookOffer::begun(inner), replies),
        !inner.drifting(),
        standing.owed.owed(),
        offered_in_vain(replies, standing, revision),
    ensures
        match protocol::run(HookOffer::begun(inner), replies).ask {
            OfferAsk::ClaimHook => calls(replies) == 0,
            OfferAsk::Fire { revision: claimed, owed, .. } => calls(replies) == 0 && claimed
                == revision && owed == standing.owed,
            OfferAsk::Report { revision: claimed, handled } => calls(replies) == 1 && claimed
                == revision && !handled.owed(),
            OfferAsk::Done { acted } => calls(replies) == 1 && !acted,
        },
    decreases replies.len(),
{
    if replies.len() > 0 {
        let before = replies.drop_last();
        assert forall|i: int| 0 <= i < before.len() implies match #[trigger] before[i] {
            OfferReply::Claimed { revision: claimed, owed } => claimed == revision && owed
                == standing.owed,
            OfferReply::Outcome(outcome) => !outcome.topology_handled && !outcome.roots_handled,
            OfferReply::Finished => true,
        } by {
            assert(before[i] == replies[i]);
        }
        lemma_offer_in_vain(inner, before, standing, revision);
        assert(replies[replies.len() - 1] == replies.last());
    }
}

/// Two drives over a hook that refuses, the second within the pause the first earned: the first
/// makes one offer, which calls the hook once and reports that nothing was taken, the second makes
/// none, neither hands anything on, and what was owed is owed still.
pub proof fn law_a_refusing_hook_is_asked_once_over_two_drives(
    standing: HookStanding,
    revision: u64,
    inner: Inner,
    offer: Seq<OfferReply>,
    acted: bool,
    first: Seq<DriveReply>,
    second: Seq<DriveReply>,
    executor_of_first: Executor,
    executor_of_second: Executor,
)
    requires
        standing.revision == revision,
        standing.owed.owed(),
        !standing.paced,
        !inner.drifting(),
        protocol::conversation(HookOffer::begun(inner), offer),
        protocol::run(HookOffer::begun(inner), offer).ask == (OfferAsk::Done { acted }),
        offered_in_vain(offer, standing, revision),
        protocol::conversation(Drive::begun(true, executor_of_first), first),
        protocol::run(Drive::begun(true, executor_of_first), first).ask is Done,
        owes_only_the_hook(first, standing.offered(), acted),
        protocol::conversation(Drive::begun(true, executor_of_second), second),
        protocol::run(Drive::begun(true, executor_of_second), second).ask is Done,
        owes_only_the_hook(
            second,
            standing.after_all(
                publish::offer_report(revision, HookDebt { topology: false, roots: false }),
            ).offered(),
            acted,
        ),
    ensures
        !acted,
        calls(offer) == 1,
        forall|k: int|
            0 <= k <= offer.len() && (#[trigger] protocol::run(
                HookOffer::begun(inner),
                offer.take(k),
            )).ask is Report ==> protocol::run(HookOffer::begun(inner), offer.take(k)).ask == (
            OfferAsk::Report { revision, handled: HookDebt { topology: false, roots: false } }),
        offers(first) == 1,
        offers(second) == 0,
        !latched(Drive::begun(true, executor_of_first), first),
        !latched(Drive::begun(true, executor_of_second), second),
        standing.after_all(
            publish::offer_report(revision, HookDebt { topology: false, roots: false }),
        ).owed == standing.owed,
{
    let nothing = HookDebt { topology: false, roots: false };
    lemma_offer_in_vain(inner, offer, standing, revision);
    assert forall|k: int|
        0 <= k <= offer.len() && (#[trigger] protocol::run(
            HookOffer::begun(inner),
            offer.take(k),
        )).ask is Report implies protocol::run(HookOffer::begun(inner), offer.take(k)).ask == (
    OfferAsk::Report { revision, handled: nothing }) by {
        let so_far = offer.take(k);
        protocol::lemma_conversation_so_far(HookOffer::begun(inner), offer, k);
        assert(offered_in_vain(so_far, standing, revision)) by {
            assert forall|i: int| 0 <= i < so_far.len() implies match #[trigger] so_far[i] {
                OfferReply::Claimed { revision: claimed, owed } => claimed == revision && owed
                    == standing.owed,
                OfferReply::Outcome(outcome) => !outcome.topology_handled && !outcome.roots_handled,
                OfferReply::Finished => true,
            } by {
                assert(so_far[i] == offer[i]);
            }
        }
        lemma_offer_in_vain(inner, so_far, standing, revision);
    }
    lemma_offer_reported(standing, revision, nothing);
    let left = standing.after_all(publish::offer_report(revision, nothing));
    law_a_refusal_does_not_spin_the_drive(executor_of_first, first, standing.offered());
    law_a_refusal_does_not_spin_the_drive(executor_of_second, second, left.offered());
}

} // verus!
