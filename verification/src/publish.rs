//! What a publication hands its consumer, and what it charges for it.
//!
//! Topology context and search roots are two independent obligations: every successful publish
//! checks roots, and what a hook would not take stays owed until it reports it handled. Marks are
//! consumed only against a publication that observed their facts.

use crate::debt::HookDebt;
use crate::inner::Inner;
use crate::intake::GraphStep;
use crate::protocol;
use crate::protocol::Protocol;
use crate::types::{GraphPublishOutcome, GraphPublishSignal, GraphStatus, WorkspaceRoots};
use vstd::prelude::*;

verus! {

/// What one call of the publish hook asks of it.
#[derive(Clone, Copy, Debug, PartialEq, Eq, Structural)]
pub struct HookCall {
    /// Marks above it must not be cleared, and none may be where it is zero.
    pub mark_bound: i64,
    /// The topology context is to be refreshed.
    pub topology_changed: bool,
    /// The search roots are to be checked.
    pub roots_refresh_requested: bool,
}

impl HookCall {
    /// The call of a publication's pass: the marks it charges and the topology refresh it owes. The
    /// search roots are always checked.
    pub open spec fn of_pass(topology: bool, marks: Option<MarkCharge>) -> HookCall {
        HookCall {
            mark_bound: match marks {
                Some(charge) => charge.bound,
                None => 0,
            },
            topology_changed: topology,
            roots_refresh_requested: true,
        }
    }

    /// The call of an offer: exactly what is owed, and no marks.
    pub open spec fn of_offer(owed: HookDebt) -> HookCall {
        HookCall {
            mark_bound: 0,
            topology_changed: owed.topology,
            roots_refresh_requested: owed.roots,
        }
    }

    /// The call of a charge between publications: the marks, and no refresh.
    pub open spec fn of_charge(marks: MarkCharge) -> HookCall {
        HookCall {
            mark_bound: marks.bound,
            topology_changed: false,
            roots_refresh_requested: false,
        }
    }
}

/// What a publication's pass asks of the hook. Every publication has its search roots checked.
pub fn pass_call(topology: bool, marks: Option<MarkCharge>) -> (call: HookCall)
    ensures
        call == HookCall::of_pass(topology, marks),
        call.mark_bound == (match marks {
            Some(charge) => charge.bound,
            None => 0,
        }),
        call.topology_changed == topology,
        call.roots_refresh_requested,
{
    let mark_bound: i64 = match marks {
        Some(charge) => charge.bound,
        None => 0,
    };
    HookCall { mark_bound, topology_changed: topology, roots_refresh_requested: true }
}

/// What an offer asks of the hook: what is owed, and no marks.
pub fn offer_call(owed: HookDebt) -> (call: HookCall)
    ensures
        call == HookCall::of_offer(owed),
        call.mark_bound == 0,
        call.topology_changed == owed.topology,
        call.roots_refresh_requested == owed.roots,
{
    HookCall {
        mark_bound: 0,
        topology_changed: owed.topology,
        roots_refresh_requested: owed.roots,
    }
}

/// What a charge between publications asks of the hook: the marks, and no refresh.
pub fn charge_call(marks: MarkCharge) -> (call: HookCall)
    ensures
        call == HookCall::of_charge(marks),
        call.mark_bound == marks.bound,
        !call.topology_changed,
        !call.roots_refresh_requested,
{
    HookCall { mark_bound: marks.bound, topology_changed: false, roots_refresh_requested: false }
}

impl Inner {
    /// What the hook is told of the topology the current publication was built under: nothing
    /// published reads as none.
    pub open spec fn published_topology(self) -> u64 {
        match self.published {
            Some(published) => published.fingerprint.topology,
            None => 0,
        }
    }

    pub open spec fn published_roots(self) -> Option<WorkspaceRoots> {
        match self.published {
            Some(published) => published.search_roots,
            None => None,
        }
    }

    /// The signal the publish hook is invoked with, for the given call.
    pub fn publish_signal(&self, call: HookCall) -> (signal: GraphPublishSignal<'_>)
        ensures
            signal.drift_pending == self.drifting(),
            signal.mark_bound == call.mark_bound,
            signal.topology_changed == call.topology_changed,
            signal.topology == self.published_topology(),
            signal.roots_refresh_requested == call.roots_refresh_requested,
            signal.workspace_roots == (match self.published_roots() {
                Some(roots) => Some(&roots),
                None => None,
            }),
    {
        let (topology, workspace_roots) = match &self.published {
            Some(published) => {
                let roots = match &published.search_roots {
                    Some(roots) => Some(roots),
                    None => None,
                };
                (published.fingerprint.topology, roots)
            },
            None => (0, None),
        };
        GraphPublishSignal {
            drift_pending: self.drift_pending(),
            mark_bound: call.mark_bound,
            topology_changed: call.topology_changed,
            topology,
            roots_refresh_requested: call.roots_refresh_requested,
            workspace_roots,
        }
    }

    /// Whether a consumer that has just come up may be offered the refreshes it missed: they need
    /// the caches, and a graph to read.
    pub fn may_flush_hook_obligations(&self, owns: bool) -> (may: bool)
        ensures
            may == (owns && self.status is Ready),
    {
        owns && matches!(self.status, GraphStatus::Ready { .. })
    }
}

/// What an offer to the hook wants done.
#[derive(Clone, Copy, Debug, PartialEq, Eq, Structural)]
pub enum OfferAsk {
    /// The revision and what it owes, as one claim.
    ClaimHook,
    /// The hook, by [`offer_call`].
    Fire { revision: u64, owed: HookDebt, call: HookCall },
    /// The reply, by [`offer_answered`].
    Report { revision: u64, handled: HookDebt },
    Done { acted: bool },
}

#[derive(Clone, Copy, Debug, PartialEq, Eq, Structural)]
pub enum OfferReply {
    Claimed { revision: u64, owed: HookDebt },
    Outcome(GraphPublishOutcome),
    Finished,
}

/// An offer of what the hook could not take, made by its one owner. A decline is not an action: an
/// offer that is not made, and one nothing is taken of, end without having acted.
#[derive(Clone, Copy, Debug, PartialEq, Eq, Structural)]
pub struct HookOffer {
    pub ask: OfferAsk,
}

/// What the hook took of what it was offered.
pub open spec fn taken(owed: HookDebt, outcome: GraphPublishOutcome) -> HookDebt {
    HookDebt {
        topology: owed.topology && outcome.topology_handled,
        roots: owed.roots && outcome.roots_handled,
    }
}

impl HookOffer {
    pub open spec fn begun(inner: Inner) -> HookOffer {
        HookOffer {
            ask: if inner.drifting() {
                OfferAsk::Done { acted: false }
            } else {
                OfferAsk::ClaimHook
            },
        }
    }

    pub open spec fn replied(self, reply: OfferReply) -> HookOffer {
        HookOffer {
            ask: match (self.ask, reply) {
                (OfferAsk::ClaimHook, OfferReply::Claimed { revision, owed }) => {
                    if owed.owed() {
                        OfferAsk::Fire { revision, owed, call: HookCall::of_offer(owed) }
                    } else {
                        OfferAsk::Done { acted: false }
                    }
                },
                (OfferAsk::Fire { revision, owed, .. }, OfferReply::Outcome(outcome)) => {
                    OfferAsk::Report { revision, handled: taken(owed, outcome) }
                },
                (OfferAsk::Report { handled, .. }, OfferReply::Finished) => OfferAsk::Done {
                    acted: handled.owed(),
                },
                (ask, _) => ask,
            },
        }
    }

    /// Begin, for a caller that owns the offer. A fresher build that is on its way will publish and
    /// be charged itself.
    pub fn begin(inner: &Inner) -> (offer: HookOffer)
        ensures
            offer == HookOffer::begun(*inner),
    {
        let ask = if inner.drift_pending() {
            OfferAsk::Done { acted: false }
        } else {
            OfferAsk::ClaimHook
        };
        HookOffer { ask }
    }

    /// Take the reply to what was asked, and say what comes next.
    pub fn reply(self, reply: OfferReply) -> (next: HookOffer)
        requires
            self.takes(reply),
        ensures
            next == self.replied(reply),
    {
        let ask = match (self.ask, reply) {
            (OfferAsk::ClaimHook, OfferReply::Claimed { revision, owed }) => {
                if owed.any() {
                    OfferAsk::Fire { revision, owed, call: offer_call(owed) }
                } else {
                    OfferAsk::Done { acted: false }
                }
            },
            (OfferAsk::Fire { revision, owed, call: _ }, OfferReply::Outcome(outcome)) => {
                let handled = HookDebt {
                    topology: owed.topology && outcome.topology_handled,
                    roots: owed.roots && outcome.roots_handled,
                };
                OfferAsk::Report { revision, handled }
            },
            (OfferAsk::Report { revision: _, handled }, OfferReply::Finished) => OfferAsk::Done {
                acted: handled.any(),
            },
            (ask, _) => ask,
        };
        HookOffer { ask }
    }
}

impl Protocol for HookOffer {
    type Reply = OfferReply;

    open spec fn takes(self, reply: OfferReply) -> bool {
        match self.ask {
            OfferAsk::ClaimHook => reply is Claimed,
            OfferAsk::Fire { .. } => reply is Outcome,
            OfferAsk::Report { .. } => reply is Finished,
            OfferAsk::Done { .. } => false,
        }
    }

    open spec fn after(self, reply: OfferReply) -> HookOffer {
        self.replied(reply)
    }
}

/// What the ledger is told of an offer's reply.
pub open spec fn offer_report(revision: u64, handled: HookDebt) -> Seq<GraphStep> {
    if handled.owed() {
        seq![GraphStep::HookHandled { revision, handled }]
    } else {
        seq![GraphStep::HookHandled { revision, handled }, GraphStep::HookRefused { revision }]
    }
}

/// What the ledger is told of an offer's reply. An offer nothing was taken of is paced: asked again
/// in the same turn, a consumer that refuses for as long as it lives would turn the executor into a
/// loop without a wait.
pub fn offer_answered(revision: u64, handled: HookDebt) -> (steps: Vec<GraphStep>)
    ensures
        steps@ == offer_report(revision, handled),
{
    if handled.any() {
        vec![GraphStep::HookHandled { revision, handled }]
    } else {
        vec![GraphStep::HookHandled { revision, handled }, GraphStep::HookRefused { revision }]
    }
}

/// What a publication's pass wants done.
#[derive(Clone, Copy, Debug, PartialEq, Eq, Structural)]
pub enum PassAsk {
    ConfirmOwnership,
    /// No hook and no consumption, but the marks' obligation is bookkeeping and is settled.
    SettleOnly,
    /// Under the publication gate from here to the report: what is owed of earlier refusals.
    ClaimHook,
    /// The observation marks may be charged against.
    ReadObservation { revision: u64, topology: bool },
    /// The bound of the marks this observation covers.
    ReadBound { revision: u64, topology: bool, observed: u64 },
    /// The hook, by [`pass_call`].
    Fire { revision: u64, topology: bool, marks: Option<MarkCharge>, call: HookCall },
    /// The reply, by [`pass_answered`].
    Report {
        revision: u64,
        topology: bool,
        marks: Option<MarkCharge>,
        outcome: GraphPublishOutcome,
    },
    /// The publication gate is given up; what is left is settled and decided again.
    SettleAndDrive,
    Done,
}

/// Marks up to a bound, and the observation they are charged against.
#[derive(Clone, Copy, Debug, PartialEq, Eq, Structural)]
pub struct MarkCharge {
    pub observed: u64,
    pub bound: i64,
}

#[derive(Clone, Copy, Debug, PartialEq, Eq, Structural)]
pub enum PassReply {
    Owns(bool),
    Claimed { revision: u64, owed: HookDebt },
    Observed(Option<u64>),
    Bound(Option<i64>),
    Outcome(GraphPublishOutcome),
    Finished,
}

/// The pass that follows a publication.
#[derive(Clone, Copy, Debug, PartialEq, Eq, Structural)]
pub struct PublishPass {
    pub topology_changed: bool,
    pub ask: PassAsk,
}

impl PublishPass {
    pub open spec fn begun(topology_changed: bool) -> PublishPass {
        PublishPass { topology_changed, ask: PassAsk::ConfirmOwnership }
    }

    pub open spec fn replied(self, reply: PassReply) -> PublishPass {
        PublishPass {
            ask: match (self.ask, reply) {
                (PassAsk::ConfirmOwnership, PassReply::Owns(owns)) => {
                    if owns {
                        PassAsk::ClaimHook
                    } else {
                        PassAsk::SettleOnly
                    }
                },
                (PassAsk::ClaimHook, PassReply::Claimed { revision, owed }) => {
                    PassAsk::ReadObservation {
                        revision,
                        topology: self.topology_changed || owed.topology,
                    }
                },
                (
                    PassAsk::ReadObservation { revision, topology },
                    PassReply::Observed(observed),
                ) => {
                    match observed {
                        Some(observed) => PassAsk::ReadBound { revision, topology, observed },
                        None => PassAsk::Fire {
                            revision,
                            topology,
                            marks: None,
                            call: HookCall::of_pass(topology, None),
                        },
                    }
                },
                (
                    PassAsk::ReadBound { revision, topology, observed },
                    PassReply::Bound(bound),
                ) => {
                    let marks = match bound {
                        Some(bound) => Some(MarkCharge { observed, bound }),
                        None => None,
                    };
                    PassAsk::Fire {
                        revision,
                        topology,
                        marks,
                        call: HookCall::of_pass(topology, marks),
                    }
                },
                (
                    PassAsk::Fire { revision, topology, marks, .. },
                    PassReply::Outcome(outcome),
                ) => PassAsk::Report { revision, topology, marks, outcome },
                (PassAsk::Report { .. }, PassReply::Finished) => PassAsk::SettleAndDrive,
                (_, _) => PassAsk::Done,
            },
            ..self
        }
    }

    pub fn begin(topology_changed: bool) -> (pass: PublishPass)
        ensures
            pass == PublishPass::begun(topology_changed),
    {
        PublishPass { topology_changed, ask: PassAsk::ConfirmOwnership }
    }

    /// Take the reply to what was asked, and say what comes next.
    pub fn reply(self, reply: PassReply) -> (next: PublishPass)
        requires
            self.takes(reply),
        ensures
            next == self.replied(reply),
    {
        let ask = match (self.ask, reply) {
            (PassAsk::ConfirmOwnership, PassReply::Owns(owns)) => {
                if owns {
                    PassAsk::ClaimHook
                } else {
                    PassAsk::SettleOnly
                }
            },
            (PassAsk::ClaimHook, PassReply::Claimed { revision, owed }) => {
                PassAsk::ReadObservation {
                    revision,
                    topology: self.topology_changed || owed.topology,
                }
            },
            (PassAsk::ReadObservation { revision, topology }, PassReply::Observed(observed)) => {
                match observed {
                    Some(observed) => PassAsk::ReadBound { revision, topology, observed },
                    None => PassAsk::Fire {
                        revision,
                        topology,
                        marks: None,
                        call: pass_call(topology, None),
                    },
                }
            },
            (PassAsk::ReadBound { revision, topology, observed }, PassReply::Bound(bound)) => {
                let marks = match bound {
                    Some(bound) => Some(MarkCharge { observed, bound }),
                    None => None,
                };
                PassAsk::Fire { revision, topology, marks, call: pass_call(topology, marks) }
            },
            (
                PassAsk::Fire { revision, topology, marks, call: _ },
                PassReply::Outcome(outcome),
            ) => {
                PassAsk::Report { revision, topology, marks, outcome }
            },
            (PassAsk::Report { revision: _, topology: _, marks: _, outcome: _ }, PassReply::Finished) => {
                PassAsk::SettleAndDrive
            },
            _ => PassAsk::Done,
        };
        PublishPass { ask, ..self }
    }
}

impl Protocol for PublishPass {
    type Reply = PassReply;

    open spec fn takes(self, reply: PassReply) -> bool {
        match self.ask {
            PassAsk::ConfirmOwnership => reply is Owns,
            PassAsk::ClaimHook => reply is Claimed,
            PassAsk::ReadObservation { .. } => reply is Observed,
            PassAsk::ReadBound { .. } => reply is Bound,
            PassAsk::Fire { .. } => reply is Outcome,
            PassAsk::SettleOnly => reply is Finished,
            PassAsk::Report { .. } => reply is Finished,
            PassAsk::SettleAndDrive => reply is Finished,
            PassAsk::Done => false,
        }
    }

    open spec fn after(self, reply: PassReply) -> PublishPass {
        self.replied(reply)
    }
}

/// What is still owed once a hook has answered a publication's offer.
pub open spec fn left_owed(topology: bool, outcome: GraphPublishOutcome) -> HookDebt {
    HookDebt {
        topology: topology && !outcome.topology_handled,
        roots: !outcome.roots_handled,
    }
}

/// What the ledger is told of a publication's pass.
pub open spec fn pass_report(
    revision: u64,
    topology: bool,
    marks: Option<MarkCharge>,
    outcome: GraphPublishOutcome,
) -> Seq<GraphStep> {
    let answered = seq![
        GraphStep::HookHandled {
            revision,
            handled: HookDebt {
                topology: outcome.topology_handled,
                roots: outcome.roots_handled,
            },
        },
        GraphStep::RecordHook(left_owed(topology, outcome)),
    ];
    let paced = if !outcome.topology_handled && !outcome.roots_handled {
        answered.push(GraphStep::PaceHookRefusal)
    } else {
        answered
    };
    match marks {
        Some(charge) if outcome.topology_handled => paced.push(
            GraphStep::ConsumeMarks { observed: charge.observed, bound: charge.bound },
        ),
        _ => paced,
    }
}

/// What the ledger is told of the hook's reply to a publication. A refusal is paced after it is
/// recorded, so that it is the debt now standing that waits.
pub fn pass_answered(
    revision: u64,
    topology: bool,
    marks: Option<MarkCharge>,
    outcome: GraphPublishOutcome,
) -> (steps: Vec<GraphStep>)
    ensures
        steps@ == pass_report(revision, topology, marks, outcome),
{
    let handled = HookDebt { topology: outcome.topology_handled, roots: outcome.roots_handled };
    let left = HookDebt {
        topology: topology && !outcome.topology_handled,
        roots: !outcome.roots_handled,
    };
    let mut steps = vec![GraphStep::HookHandled { revision, handled }, GraphStep::RecordHook(left)];
    if !outcome.topology_handled && !outcome.roots_handled {
        steps.push(GraphStep::PaceHookRefusal);
    }
    match marks {
        Some(charge) => {
            if outcome.topology_handled {
                steps.push(
                    GraphStep::ConsumeMarks { observed: charge.observed, bound: charge.bound },
                );
            }
        },
        None => {},
    }
    steps
}

/// What follows a pass: what this publication did not discharge is decided again at once.
pub fn pass_over() -> (steps: Vec<GraphStep>)
    ensures
        steps@ == seq![GraphStep::SettleMarks, GraphStep::Drive],
{
    vec![GraphStep::SettleMarks, GraphStep::Drive]
}

/// What a charge of placed marks against the current publication wants done, all of it under the
/// publication gate.
#[derive(Clone, Copy, Debug, PartialEq, Eq, Structural)]
pub enum ChargeAsk {
    /// The bound of the marks this observation covers.
    ReadBound { observed: u64 },
    /// The hook, by [`charge_call`].
    Fire { charge: MarkCharge, call: HookCall },
    /// The marks are consumed.
    Consume(MarkCharge),
    Done,
}

#[derive(Clone, Copy, Debug, PartialEq, Eq, Structural)]
pub enum ChargeReply {
    Bound(Option<i64>),
    Outcome(GraphPublishOutcome),
    Finished,
}

/// A consumption of marks that is not part of a publication's own pass.
#[derive(Clone, Copy, Debug, PartialEq, Eq, Structural)]
pub struct ConsumeObserved {
    pub ask: ChargeAsk,
}

impl ConsumeObserved {
    pub open spec fn begun(inner: Inner, owes_recovery: bool) -> ConsumeObserved {
        ConsumeObserved {
            ask: match inner.observed(owes_recovery) {
                Some(observed) => ChargeAsk::ReadBound { observed },
                None => ChargeAsk::Done,
            },
        }
    }

    pub open spec fn replied(self, reply: ChargeReply) -> ConsumeObserved {
        ConsumeObserved {
            ask: match (self.ask, reply) {
                (ChargeAsk::ReadBound { observed }, ChargeReply::Bound(Some(bound))) => {
                    let charge = MarkCharge { observed, bound };
                    ChargeAsk::Fire { charge, call: HookCall::of_charge(charge) }
                },
                (ChargeAsk::Fire { charge, .. }, ChargeReply::Outcome(outcome)) => {
                    if outcome.topology_handled {
                        ChargeAsk::Consume(charge)
                    } else {
                        ChargeAsk::Done
                    }
                },
                (_, _) => ChargeAsk::Done,
            },
        }
    }

    /// Begin with the publication on record. One that cannot vouch for itself consumes nothing.
    pub fn begin(inner: &Inner, owes_recovery: bool) -> (charge: ConsumeObserved)
        ensures
            charge == ConsumeObserved::begun(*inner, owes_recovery),
    {
        let ask = match inner.consuming_observation(owes_recovery) {
            Some(observed) => ChargeAsk::ReadBound { observed },
            None => ChargeAsk::Done,
        };
        ConsumeObserved { ask }
    }

    /// Take the reply to what was asked, and say what comes next.
    pub fn reply(self, reply: ChargeReply) -> (next: ConsumeObserved)
        requires
            self.takes(reply),
        ensures
            next == self.replied(reply),
    {
        let ask = match (self.ask, reply) {
            (ChargeAsk::ReadBound { observed }, ChargeReply::Bound(bound)) => match bound {
                Some(bound) => {
                    let charge = MarkCharge { observed, bound };
                    ChargeAsk::Fire { charge, call: charge_call(charge) }
                },
                None => ChargeAsk::Done,
            },
            (ChargeAsk::Fire { charge, call: _ }, ChargeReply::Outcome(outcome)) => {
                if outcome.topology_handled {
                    ChargeAsk::Consume(charge)
                } else {
                    ChargeAsk::Done
                }
            },
            _ => ChargeAsk::Done,
        };
        ConsumeObserved { ask }
    }
}

impl Protocol for ConsumeObserved {
    type Reply = ChargeReply;

    open spec fn takes(self, reply: ChargeReply) -> bool {
        match self.ask {
            ChargeAsk::ReadBound { .. } => reply is Bound,
            ChargeAsk::Fire { .. } => reply is Outcome,
            ChargeAsk::Consume(_) => reply is Finished,
            ChargeAsk::Done => false,
        }
    }

    open spec fn after(self, reply: ChargeReply) -> ConsumeObserved {
        self.replied(reply)
    }
}

/// A hook is never recorded to have taken what it was not offered, and the two obligations are
/// answered each by its own half of the reply.
pub proof fn law_an_offer_clears_only_what_was_owed(owed: HookDebt, outcome: GraphPublishOutcome)
    ensures
        taken(owed, outcome).topology ==> owed.topology,
        taken(owed, outcome).roots ==> owed.roots,
        taken(HookDebt { roots: !owed.roots, ..owed }, outcome).topology == taken(
            owed,
            outcome,
        ).topology,
        taken(HookDebt { topology: !owed.topology, ..owed }, outcome).roots == taken(
            owed,
            outcome,
        ).roots,
{
}

/// A refused search-root refresh never manufactures a topology change: a topology context is left
/// owed only where one was asked for and refused, and a root refresh exactly where it was refused.
pub proof fn law_a_refusal_arms_only_what_was_asked(
    topology: bool,
    outcome: GraphPublishOutcome,
)
    ensures
        left_owed(topology, outcome).topology ==> topology && !outcome.topology_handled,
        left_owed(topology, outcome).roots == !outcome.roots_handled,
        left_owed(topology, GraphPublishOutcome { topology_handled: true, roots_handled: true })
            == (HookDebt { topology: false, roots: false }),
        !left_owed(false, outcome).topology,
{
}

/// An offer acts exactly where something was taken of it; a refused one is reported as refused and
/// a fresher build on its way keeps it from being made.
pub proof fn law_a_decline_is_not_an_action(
    inner: Inner,
    revision: u64,
    owed: HookDebt,
    outcome: GraphPublishOutcome,
)
    requires
        !inner.drifting(),
        owed.owed(),
    ensures
        ({
            let asked = HookOffer::begun(inner).replied(OfferReply::Claimed { revision, owed });
            let answered = asked.replied(OfferReply::Outcome(outcome));
            &&& asked.ask == (OfferAsk::Fire { revision, owed, call: HookCall::of_offer(owed) })
            &&& answered.ask == (OfferAsk::Report { revision, handled: taken(owed, outcome) })
            &&& answered.replied(OfferReply::Finished).ask == (OfferAsk::Done {
                acted: taken(owed, outcome).owed(),
            })
        }),
        HookOffer::begun(inner).replied(
            OfferReply::Claimed { revision, owed: HookDebt { topology: false, roots: false } },
        ).ask == (OfferAsk::Done { acted: false }),
{
}

/// Where a conversation with a pass stands.
spec fn pass_stands(topology_changed: bool, replies: Seq<PassReply>) -> bool {
    let pass = protocol::run(PublishPass::begun(topology_changed), replies);
    let ask = pass.ask;
    let n = replies.len() as int;
    &&& pass.topology_changed == topology_changed
    &&& ask is ConfirmOwnership ==> n == 0
    &&& !(ask is ConfirmOwnership) ==> n > 0 && replies[0] is Owns
    &&& ask is SettleOnly ==> n == 1 && replies[0] == PassReply::Owns(false)
    &&& !(ask is ConfirmOwnership) && !(ask is SettleOnly) && !(ask is Done) ==> replies[0]
        == PassReply::Owns(true)
    &&& ask is ClaimHook ==> n == 1
    &&& ask is ReadObservation ==> n == 2
    &&& ask is ReadBound || ask is Fire || ask is Report ==> n >= 3 && replies[2] is Observed
    &&& ask is ReadBound ==> n == 3 && replies[2] == PassReply::Observed(Some(ask->observed))
    &&& ask matches PassAsk::Fire { topology, marks, call, .. } ==> call == HookCall::of_pass(
        topology,
        marks,
    )
    &&& ask is Fire ==> (match ask->Fire_marks {
        Some(charge) => n == 4 && replies[2] == PassReply::Observed(Some(charge.observed))
            && replies[3] == PassReply::Bound(Some(charge.bound)),
        None => n == 3 && replies[2] == PassReply::Observed(None) || n == 4 && replies[3]
            == PassReply::Bound(None),
    })
    &&& ask is Report ==> (match ask->Report_marks {
        Some(charge) => n == 5 && replies[2] == PassReply::Observed(Some(charge.observed))
            && replies[3] == PassReply::Bound(Some(charge.bound)),
        None => n >= 4 && replies[2] == PassReply::Observed(None) || n == 5 && replies[3]
            == PassReply::Bound(None),
    }) && replies.last() == PassReply::Outcome(ask->outcome)
    &&& (match ask {
        PassAsk::ReadObservation { revision, topology } => claimed_as(
            topology_changed,
            replies,
            revision,
            topology,
        ),
        PassAsk::ReadBound { revision, topology, .. } => claimed_as(
            topology_changed,
            replies,
            revision,
            topology,
        ),
        PassAsk::Fire { revision, topology, .. } => claimed_as(
            topology_changed,
            replies,
            revision,
            topology,
        ),
        PassAsk::Report { revision, topology, .. } => claimed_as(
            topology_changed,
            replies,
            revision,
            topology,
        ),
        _ => true,
    })
}

/// The pass answers for the revision it claimed, and asks for a topology refresh exactly where the
/// build changed it or an earlier refusal is owed one.
pub open spec fn claimed_as(
    topology_changed: bool,
    replies: Seq<PassReply>,
    revision: u64,
    topology: bool,
) -> bool {
    &&& replies.len() >= 2
    &&& replies[1] matches PassReply::Claimed { revision: claimed, owed } && claimed == revision
        && topology == (topology_changed || owed.topology)
}

proof fn lemma_pass_stands(topology_changed: bool, replies: Seq<PassReply>)
    requires
        protocol::conversation(PublishPass::begun(topology_changed), replies),
    ensures
        pass_stands(topology_changed, replies),
    decreases replies.len(),
{
    if replies.len() > 0 {
        lemma_pass_stands(topology_changed, replies.drop_last());
    }
}

/// The hook call of a pass: it is made by an owner of the caches, asks for the topology refresh
/// exactly where the build changed the topology or an earlier one is owed, asks for the search
/// roots always, and bounds the marks by what was read for this very pass, or takes none.
pub proof fn law_every_publication_checks_the_roots(
    topology_changed: bool,
    replies: Seq<PassReply>,
)
    requires
        protocol::conversation(PublishPass::begun(topology_changed), replies),
        protocol::run(PublishPass::begun(topology_changed), replies).ask is Fire,
    ensures
        ({
            let ask = protocol::run(PublishPass::begun(topology_changed), replies).ask;
            &&& ask->call.roots_refresh_requested
            &&& replies[0] == PassReply::Owns(true)
            &&& replies[1] matches PassReply::Claimed { owed, .. } && ask->call.topology_changed == (
            topology_changed || owed.topology)
            &&& ask->call.mark_bound == (match ask->Fire_marks {
                Some(charge) => charge.bound,
                None => 0,
            })
            &&& ask->Fire_marks matches Some(charge) ==> replies[2] == PassReply::Observed(
                Some(charge.observed),
            ) && replies[3] == PassReply::Bound(Some(charge.bound))
        }),
{
    lemma_pass_stands(topology_changed, replies);
}

/// The hook is fired only by an owner of the caches, for the revision it claimed; marks are
/// offered only with the observation and the bound that were read for this very pass.
pub proof fn law_a_pass_charges_what_it_observed(topology_changed: bool, replies: Seq<PassReply>)
    requires
        protocol::conversation(PublishPass::begun(topology_changed), replies),
        protocol::run(PublishPass::begun(topology_changed), replies).ask is Report,
    ensures
        ({
            let ask = protocol::run(PublishPass::begun(topology_changed), replies).ask;
            &&& replies[0] == PassReply::Owns(true)
            &&& claimed_as(topology_changed, replies, ask->Report_revision, ask->Report_topology)
            &&& replies.last() == PassReply::Outcome(ask->outcome)
            &&& ask->Report_marks matches Some(charge) ==> replies[2] == PassReply::Observed(
                Some(charge.observed),
            ) && replies[3] == PassReply::Bound(Some(charge.bound))
        }),
{
    lemma_pass_stands(topology_changed, replies);
}

/// A pass that reports has read an observation, and where there is one, the bound of its marks.
pub(crate) proof fn lemma_pass_observed(topology_changed: bool, replies: Seq<PassReply>)
    requires
        protocol::conversation(PublishPass::begun(topology_changed), replies),
        protocol::run(PublishPass::begun(topology_changed), replies).ask is Report,
    ensures
        replies.len() >= 4,
        replies[2] is Observed,
        protocol::run(PublishPass::begun(topology_changed), replies).ask->Report_marks is None ==> (
        replies[2] == PassReply::Observed(None) || replies[3] == PassReply::Bound(None)),
        replies[2] == PassReply::Observed(None) ==> protocol::run(
            PublishPass::begun(topology_changed),
            replies,
        ).ask->Report_marks is None,
{
    lemma_pass_stands(topology_changed, replies);
}

/// A pass that reports of an observation has read the bound of its marks.
pub(crate) proof fn lemma_pass_read_the_bound(topology_changed: bool, replies: Seq<PassReply>)
    requires
        protocol::conversation(PublishPass::begun(topology_changed), replies),
        protocol::run(PublishPass::begun(topology_changed), replies).ask is Report,
        replies.len() >= 3,
        replies[2] is Observed,
        replies[2]->Observed_0 is Some,
    ensures
        replies.len() >= 4,
        replies[3] is Bound,
{
    lemma_pass_stands(topology_changed, replies);
}

/// A pass of a daemon that cannot confirm its caches fires no hook and consumes nothing: it settles
/// the marks' obligation and ends.
pub proof fn law_an_unowned_pass_only_settles(topology_changed: bool)
    ensures
        ({
            let asked = PublishPass::begun(topology_changed).replied(PassReply::Owns(false));
            &&& asked.ask is SettleOnly
            &&& asked.replied(PassReply::Finished).ask is Done
        }),
{
}

/// Marks are consumed by a pass exactly where some are charged and the hook took the topology they
/// are rendered from, and then with the bound it was given; a refusal is paced exactly where
/// neither obligation was taken.
pub proof fn law_marks_are_consumed_only_where_they_were_taken(
    revision: u64,
    topology: bool,
    marks: Option<MarkCharge>,
    outcome: GraphPublishOutcome,
    charge: MarkCharge,
)
    ensures
        ({
            let steps = pass_report(revision, topology, marks, outcome);
            &&& steps.contains(
                GraphStep::ConsumeMarks { observed: charge.observed, bound: charge.bound },
            ) <==> outcome.topology_handled && marks == Some(charge)
            &&& steps.contains(GraphStep::PaceHookRefusal) <==> !outcome.topology_handled
                && !outcome.roots_handled
        }),
{
    let steps = pass_report(revision, topology, marks, outcome);
    if !outcome.topology_handled && !outcome.roots_handled {
        assert(steps[2] == GraphStep::PaceHookRefusal);
    }
    if outcome.topology_handled && marks == Some(charge) {
        assert(steps.last() == (GraphStep::ConsumeMarks {
            observed: charge.observed,
            bound: charge.bound,
        }));
    }
}

/// A charge between publications asks the hook for nothing but the marks of its own bound.
pub proof fn law_a_charge_asks_for_no_refresh(
    inner: Inner,
    owes_recovery: bool,
    replies: Seq<ChargeReply>,
)
    requires
        protocol::conversation(ConsumeObserved::begun(inner, owes_recovery), replies),
        protocol::run(ConsumeObserved::begun(inner, owes_recovery), replies).ask is Fire,
    ensures
        ({
            let call = protocol::run(
                ConsumeObserved::begun(inner, owes_recovery),
                replies,
            ).ask->call;
            &&& replies.len() == 1
            &&& replies[0] == ChargeReply::Bound(Some(call.mark_bound))
            &&& !call.topology_changed && !call.roots_refresh_requested
        }),
{
    let begun = ConsumeObserved::begun(inner, owes_recovery);
    let before = replies.drop_last();
    if before.len() > 0 {
        let earlier = before.drop_last();
        if earlier.len() == 0 {
            assert(protocol::run(begun, earlier) == begun);
        }
    } else {
        assert(protocol::run(begun, before) == begun);
    }
}

/// Marks placed between publications are consumed only against a publication that may be charged,
/// and only once the hook has taken them.
pub proof fn law_a_charge_needs_a_sound_publication(
    inner: Inner,
    owes_recovery: bool,
    replies: Seq<ChargeReply>,
)
    requires
        protocol::conversation(ConsumeObserved::begun(inner, owes_recovery), replies),
        protocol::run(ConsumeObserved::begun(inner, owes_recovery), replies).ask is Consume,
    ensures
        ({
            let charge = protocol::run(
                ConsumeObserved::begun(inner, owes_recovery),
                replies,
            ).ask->Consume_0;
            &&& inner.observed(owes_recovery) == Some(charge.observed)
            &&& replies.len() == 2
            &&& replies[0] == ChargeReply::Bound(Some(charge.bound))
            &&& replies[1] matches ChargeReply::Outcome(outcome) && outcome.topology_handled
        }),
{
    let begun = ConsumeObserved::begun(inner, owes_recovery);
    let before = replies.drop_last();
    if before.len() > 0 {
        let earlier = before.drop_last();
        assert(before.last() == replies[replies.len() - 2]);
        if earlier.len() > 0 {
            assert(protocol::conversation(begun, earlier));
        } else {
            assert(protocol::run(begun, earlier) == begun);
        }
    }
}

} // verus!
