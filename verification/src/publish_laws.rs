//! What a publication hands its consumer and what it is charged with, reply by reply.
//!
//! Each law speaks of whatever a pass, an offer or a charge answers: what the hook is called with,
//! what its reply is recorded as, and what is consumed for it.

use crate::debt::{HookDebt, Sponsors};
use crate::inner::Inner;
use crate::intake::GraphStep;
use crate::publish::{
    charge_call, offer_answered, offer_call, pass_answered, pass_call, pass_over, ChargeAsk,
    ChargeReply, ConsumeObserved, HookCall, HookOffer, MarkCharge, OfferAsk, OfferReply, PassAsk,
    PassReply, PublishPass,
};
use crate::types::{GraphPublishOutcome, GraphPublishSignal};
use vstd::prelude::*;

verus! {

/// A pass asks for the topology refresh it owes and bounds the marks by its charge, or takes none;
/// it has the search roots checked always. An offer asks for each refresh that is owed and for no
/// marks, and a charge for its marks and no refresh.
pub proof fn law_a_call_asks_for_what_it_is_made_for(
    topology: bool,
    charge: MarkCharge,
    owed: HookDebt,
    with_marks: HookCall,
    without_marks: HookCall,
    offered: HookCall,
    charged: HookCall,
)
    requires
        call_ensures(pass_call, (topology, Some(charge)), with_marks),
        call_ensures(pass_call, (topology, None), without_marks),
        call_ensures(offer_call, (owed,), offered),
        call_ensures(charge_call, (charge,), charged),
    ensures
        with_marks.topology_changed == topology && without_marks.topology_changed == topology,
        with_marks.roots_refresh_requested && without_marks.roots_refresh_requested,
        with_marks.mark_bound == charge.bound && without_marks.mark_bound == 0,
        offered.topology_changed == owed.topology,
        offered.roots_refresh_requested == owed.roots,
        offered.mark_bound == 0,
        !charged.topology_changed && !charged.roots_refresh_requested,
        charged.mark_bound == charge.bound,
{
}

/// The hook is told what the call asks for, under the topology and the roots of the publication on
/// record, and that a fresher build is on its way exactly where one loads or reloads.
pub proof fn law_a_signal_speaks_of_the_publication_on_record(
    inner: &Inner,
    call: HookCall,
    signal: GraphPublishSignal<'_>,
)
    requires
        call_ensures(Inner::publish_signal, (inner, call), signal),
    ensures
        signal.mark_bound == call.mark_bound,
        signal.topology_changed == call.topology_changed,
        signal.roots_refresh_requested == call.roots_refresh_requested,
        signal.drift_pending <==> inner.status is Loading || (inner.published matches Some(published)
            && published.reload is Running),
        inner.published matches Some(published) ==> {
            &&& signal.topology == published.fingerprint.topology
            &&& published.search_roots matches Some(roots) ==> signal.workspace_roots == Some(&roots)
            &&& published.search_roots is None ==> signal.workspace_roots is None
        },
        inner.published is None ==> signal.topology == 0 && signal.workspace_roots is None,
{
}

/// What was missed is offered exactly by an owner of the caches over a graph that is ready.
pub proof fn law_missed_refreshes_need_an_owner_and_a_graph(inner: &Inner, owns: bool, may: bool)
    requires
        call_ensures(Inner::may_flush_hook_obligations, (inner, owns), may),
    ensures
        may <==> owns && inner.status is Ready,
{
}

/// Anything is owed or paid where either half of it is, and a graph without a hook takes everything.
pub proof fn law_a_debt_has_two_halves(
    debt: &HookDebt,
    owed: bool,
    sponsors: &Sponsors,
    paid: bool,
    outcome: GraphPublishOutcome,
)
    requires
        call_ensures(HookDebt::any, (debt,), owed),
        call_ensures(Sponsors::any, (sponsors,), paid),
        call_ensures(GraphPublishOutcome::handled, (), outcome),
    ensures
        owed <==> debt.topology || debt.roots,
        paid <==> sponsors.primary || sponsors.marks,
        outcome.topology_handled && outcome.roots_handled,
{
}

/// An offer claims what is owed exactly where no fresher build is on its way, and calls the hook
/// exactly where that is anything, for the revision and the halves it claimed.
pub proof fn law_an_offer_calls_for_what_it_claimed(
    inner: &Inner,
    begun: HookOffer,
    claiming: HookOffer,
    revision: u64,
    owed: HookDebt,
    next: HookOffer,
)
    requires
        call_ensures(HookOffer::begin, (inner,), begun),
        claiming.ask is ClaimHook,
        call_ensures(HookOffer::reply, (claiming, OfferReply::Claimed { revision, owed }), next),
    ensures
        inner.status is Loading || (inner.published matches Some(published) && published.reload
            is Running) <==> begun.ask == (OfferAsk::Done { acted: false }),
        !(inner.status is Loading || (inner.published matches Some(published) && published.reload
            is Running)) <==> begun.ask is ClaimHook,
        owed.topology || owed.roots ==> next.ask == (OfferAsk::Fire {
            revision,
            owed,
            call: HookCall {
                mark_bound: 0,
                topology_changed: owed.topology,
                roots_refresh_requested: owed.roots,
            },
        }),
        !owed.topology && !owed.roots ==> next.ask == (OfferAsk::Done { acted: false }),
{
}

/// Of what an offer claimed, each half is taken where the hook handled it; the offer acted where
/// either was.
pub proof fn law_an_offer_takes_each_half_for_itself(
    firing: HookOffer,
    revision: u64,
    owed: HookDebt,
    outcome: GraphPublishOutcome,
    reporting: HookOffer,
    over: HookOffer,
)
    requires
        firing.ask matches OfferAsk::Fire { revision: claimed, owed: asked, .. } && claimed
            == revision && asked == owed,
        call_ensures(HookOffer::reply, (firing, OfferReply::Outcome(outcome)), reporting),
        call_ensures(HookOffer::reply, (reporting, OfferReply::Finished), over),
    ensures
        reporting.ask matches OfferAsk::Report { revision: answered, handled } && {
            &&& answered == revision
            &&& handled.topology == (owed.topology && outcome.topology_handled)
            &&& handled.roots == (owed.roots && outcome.roots_handled)
        },
        over.ask == (OfferAsk::Done {
            acted: (owed.topology && outcome.topology_handled) || (owed.roots
                && outcome.roots_handled),
        }),
{
}

/// An offer's reply is recorded under its revision, and as a refusal after that exactly where
/// nothing was taken.
pub proof fn law_an_untaken_offer_is_recorded_as_refused(
    revision: u64,
    handled: HookDebt,
    steps: Vec<GraphStep>,
)
    requires
        call_ensures(offer_answered, (revision, handled), steps),
    ensures
        handled.topology || handled.roots ==> steps@ == seq![
            GraphStep::HookHandled { revision, handled },
        ],
        !handled.topology && !handled.roots ==> steps@ == seq![
            GraphStep::HookHandled { revision, handled },
            GraphStep::HookRefused { revision },
        ],
{
}

/// A pass confirms ownership first and without it only settles. With it, it claims what is owed, and
/// asks for the topology where the build changed it or an earlier one is owed.
pub proof fn law_a_pass_claims_for_an_owner_only(
    topology_changed: bool,
    begun: PublishPass,
    owns: bool,
    next: PublishPass,
    claiming: PublishPass,
    revision: u64,
    owed: HookDebt,
    observing: PublishPass,
)
    requires
        call_ensures(PublishPass::begin, (topology_changed,), begun),
        call_ensures(PublishPass::reply, (begun, PassReply::Owns(owns)), next),
        claiming.ask is ClaimHook,
        call_ensures(PublishPass::reply, (claiming, PassReply::Claimed { revision, owed }), observing),
    ensures
        begun.topology_changed == topology_changed && begun.ask is ConfirmOwnership,
        next.topology_changed == topology_changed,
        owns <==> next.ask is ClaimHook,
        !owns <==> next.ask is SettleOnly,
        observing.topology_changed == claiming.topology_changed,
        observing.ask == (PassAsk::ReadObservation {
            revision,
            topology: claiming.topology_changed || owed.topology,
        }),
{
}

/// The hook is called with the marks of the bound read for the observation, and with none where
/// there is no observation or no bound; it is called either way.
pub proof fn law_a_pass_calls_with_the_marks_it_observed(
    reading: PublishPass,
    revision: u64,
    topology: bool,
    unobserved: PublishPass,
    observed: u64,
    bounding: PublishPass,
    bound: i64,
    bounded: PublishPass,
    unbounded: PublishPass,
)
    requires
        reading.ask == (PassAsk::ReadObservation { revision, topology }),
        call_ensures(PublishPass::reply, (reading, PassReply::Observed(None)), unobserved),
        call_ensures(PublishPass::reply, (reading, PassReply::Observed(Some(observed))), bounding),
        call_ensures(PublishPass::reply, (bounding, PassReply::Bound(Some(bound))), bounded),
        call_ensures(PublishPass::reply, (bounding, PassReply::Bound(None)), unbounded),
    ensures
        bounding.ask == (PassAsk::ReadBound { revision, topology, observed }),
        bounded.ask == (PassAsk::Fire {
            revision,
            topology,
            marks: Some(MarkCharge { observed, bound }),
            call: HookCall {
                mark_bound: bound,
                topology_changed: topology,
                roots_refresh_requested: true,
            },
        }),
        unbounded.ask == (PassAsk::Fire {
            revision,
            topology,
            marks: None,
            call: HookCall {
                mark_bound: 0,
                topology_changed: topology,
                roots_refresh_requested: true,
            },
        }),
        unobserved.ask == unbounded.ask,
        unobserved.topology_changed == reading.topology_changed && bounded.topology_changed
            == reading.topology_changed && unbounded.topology_changed == reading.topology_changed,
{
}

/// What the hook answered is reported for the revision, the topology and the marks it was called
/// with; what is left is settled and decided, and so is it where the pass only settled.
pub proof fn law_a_pass_reports_what_it_called_with(
    firing: PublishPass,
    outcome: GraphPublishOutcome,
    reporting: PublishPass,
    settling: PublishPass,
    over: PublishPass,
    settling_only: PublishPass,
    over_only: PublishPass,
    steps: Vec<GraphStep>,
)
    requires
        firing.ask is Fire,
        call_ensures(PublishPass::reply, (firing, PassReply::Outcome(outcome)), reporting),
        call_ensures(PublishPass::reply, (reporting, PassReply::Finished), settling),
        call_ensures(PublishPass::reply, (settling, PassReply::Finished), over),
        settling_only.ask is SettleOnly,
        call_ensures(PublishPass::reply, (settling_only, PassReply::Finished), over_only),
        call_ensures(pass_over, (), steps),
    ensures
        reporting.ask == (PassAsk::Report {
            revision: firing.ask->Fire_revision,
            topology: firing.ask->Fire_topology,
            marks: firing.ask->Fire_marks,
            outcome,
        }),
        settling.ask is SettleAndDrive,
        over.ask is Done && over_only.ask is Done,
        steps@ == seq![GraphStep::SettleMarks, GraphStep::Drive],
{
}

/// A pass records what the hook handled and then what is left: the topology where it was asked for
/// and refused, and the roots where they were refused. A hook that took nothing is paced, and the
/// marks are consumed, with their own observation and bound, exactly where the topology was taken.
pub proof fn law_a_pass_records_each_half_for_itself(
    revision: u64,
    topology: bool,
    charge: MarkCharge,
    outcome: GraphPublishOutcome,
    with_marks: Vec<GraphStep>,
    without_marks: Vec<GraphStep>,
)
    requires
        call_ensures(pass_answered, (revision, topology, Some(charge), outcome), with_marks),
        call_ensures(pass_answered, (revision, topology, None, outcome), without_marks),
    ensures
        without_marks@.len() >= 2,
        without_marks@[0] == (GraphStep::HookHandled {
            revision,
            handled: HookDebt {
                topology: outcome.topology_handled,
                roots: outcome.roots_handled,
            },
        }),
        without_marks@[1] == GraphStep::RecordHook(
            HookDebt {
                topology: topology && !outcome.topology_handled,
                roots: !outcome.roots_handled,
            },
        ),
        outcome.topology_handled || outcome.roots_handled ==> without_marks@.len() == 2,
        !outcome.topology_handled && !outcome.roots_handled ==> without_marks@.len() == 3
            && without_marks@[2] == GraphStep::PaceHookRefusal,
        outcome.topology_handled ==> with_marks@ == without_marks@.push(
            GraphStep::ConsumeMarks { observed: charge.observed, bound: charge.bound },
        ),
        !outcome.topology_handled ==> with_marks@ == without_marks@,
{
    if outcome.topology_handled {
        assert(with_marks@ =~= without_marks@.push(
            GraphStep::ConsumeMarks { observed: charge.observed, bound: charge.bound },
        ));
    } else {
        assert(with_marks@ =~= without_marks@);
    }
}

/// A charge between publications begins with the observation of the publication on record, exactly
/// where the graph is ready, no recovery is owed and that build is neither a stale cache nor unsound.
/// It calls the hook with the bound it reads, and consumes that charge exactly where the hook took
/// the topology.
pub proof fn law_a_charge_is_consumed_where_it_was_taken(
    inner: &Inner,
    owes_recovery: bool,
    begun: ConsumeObserved,
    observed: u64,
    reading: ConsumeObserved,
    bound: i64,
    firing: ConsumeObserved,
    unbounded: ConsumeObserved,
    outcome: GraphPublishOutcome,
    answered: ConsumeObserved,
    consuming: ConsumeObserved,
    over: ConsumeObserved,
)
    requires
        call_ensures(ConsumeObserved::begin, (inner, owes_recovery), begun),
        reading.ask == (ChargeAsk::ReadBound { observed }),
        call_ensures(ConsumeObserved::reply, (reading, ChargeReply::Bound(Some(bound))), firing),
        call_ensures(ConsumeObserved::reply, (reading, ChargeReply::Bound(None)), unbounded),
        call_ensures(ConsumeObserved::reply, (firing, ChargeReply::Outcome(outcome)), answered),
        consuming.ask is Consume,
        call_ensures(ConsumeObserved::reply, (consuming, ChargeReply::Finished), over),
    ensures
        match inner.published {
            Some(published) if inner.status is Ready && !owes_recovery && !published.stale
                && !published.force_stale => match published.observed_through {
                Some(through) => begun.ask == (ChargeAsk::ReadBound { observed: through }),
                None => begun.ask is Done,
            },
            _ => begun.ask is Done,
        },
        firing.ask == (ChargeAsk::Fire {
            charge: MarkCharge { observed, bound },
            call: HookCall {
                mark_bound: bound,
                topology_changed: false,
                roots_refresh_requested: false,
            },
        }),
        unbounded.ask is Done,
        outcome.topology_handled ==> answered.ask == ChargeAsk::Consume(
            MarkCharge { observed, bound },
        ),
        !outcome.topology_handled ==> answered.ask is Done,
        over.ask is Done,
{
}

} // verus!
