//! The ways a build comes to be claimed, reply by reply.
//!
//! Each law speaks of whatever an entry, a claim, a kick, a probe or the boot answers: what is read,
//! in which order, what a refused reading leads to, and what reaches the slot.

use crate::admission::{
    ClaimAsk, ClaimReply, EnsureLoading, Kick, KickAsk, KickReply, LoadAsk, LoadReply,
    ReloadAttempt,
};
use crate::debt::{Decision, Facts, ProbeResult, Ripeness};
use crate::inner::{Inner, ReloadClaim};
use crate::intake::GraphStep;
use crate::probe::{evidence_found, reserve, Probe, ProbeAsk, ProbeReply};
use crate::startup::{FusedStartup, PublishAttempt, Startup, StartupAsk, StartupReply};
use crate::types::GraphFp;
use vstd::prelude::*;

verus! {

/// The entry reads nothing where no build could be claimed, whatever else holds; on a failed graph
/// it asks the schedule first, and on an idle one it goes to the lifecycle at once.
pub proof fn law_an_entry_reads_only_where_a_build_could_be_claimed(
    inner: &Inner,
    entry: EnsureLoading,
)
    requires
        call_ensures(EnsureLoading::begin, (inner,), entry),
    ensures
        entry.ask is ReadFacts <==> inner.status is Idle && inner.claimed is None && inner.building
            is None,
        entry.ask is ReadRipeness <==> inner.status is Failed && inner.claimed is None
            && inner.building is None,
        entry.ask is ReadFacts || entry.ask is ReadRipeness || entry.ask is Done,
{
}

/// A failed graph goes on exactly where its retry is due.
pub proof fn law_a_retry_waits_for_its_schedule(
    entry: EnsureLoading,
    ripeness: Option<Ripeness>,
    next: EnsureLoading,
)
    requires
        entry.ask is ReadRipeness,
        call_ensures(EnsureLoading::reply, (entry, LoadReply::Ripeness(ripeness)), next),
    ensures
        ripeness == Some(Ripeness::Now) <==> next.ask is ReadFacts,
        ripeness != Some(Ripeness::Now) <==> next.ask is Done,
{
}

/// An owned workspace is decided on as it was read; an unconfirmed lease puts the ask back, unless
/// it is gone for good or the daemon is leaving.
pub proof fn law_an_entry_decides_only_for_an_owner(
    entry: EnsureLoading,
    facts: Facts,
    next: EnsureLoading,
)
    requires
        entry.ask is ReadFacts,
        call_ensures(EnsureLoading::reply, (entry, LoadReply::Facts(facts)), next),
    ensures
        facts.owns ==> next.ask == LoadAsk::Decide(facts),
        !facts.owns && (facts.terminal || facts.stopping) ==> next.ask is Done,
        !facts.owns && !facts.terminal && !facts.stopping ==> next.ask is PutBack,
{
}

/// The claim is made in the decision's mode, and is the last word, as the ask put back is.
pub proof fn law_an_entry_claims_in_the_decided_mode(
    entry: EnsureLoading,
    decision: Decision,
    next: EnsureLoading,
    ending: EnsureLoading,
    over: EnsureLoading,
)
    requires
        entry.ask is Decide,
        call_ensures(EnsureLoading::reply, (entry, LoadReply::Decision(decision)), next),
        ending.ask is Claim || ending.ask is PutBack,
        call_ensures(EnsureLoading::reply, (ending, LoadReply::Finished), over),
    ensures
        decision.start matches Some(start) ==> next.ask == (LoadAsk::Claim {
            forced: start.forced,
        }),
        decision.start is None ==> next.ask == (LoadAsk::Claim { forced: false }),
        over.ask is Done,
{
}

/// A claim on the reload slot confirms ownership first: without it the claim is held, a forced one
/// goes to the stream's position with nothing measured, and every other one measures disk.
pub proof fn law_a_claim_confirms_ownership_first(
    force: bool,
    begun: ReloadAttempt,
    owns: bool,
    next: ReloadAttempt,
)
    requires
        call_ensures(ReloadAttempt::begin, (force,), begun),
        call_ensures(ReloadAttempt::reply, (begun, ClaimReply::Owns(owns)), next),
    ensures
        begun.force == force && begun.ask is ConfirmOwnership,
        next.force == force,
        !owns ==> next.ask == ClaimAsk::Done(ReloadClaim::Held),
        owns && force ==> (next.ask matches ClaimAsk::ReadCutoff { disk } && disk is None),
        owns && !force ==> next.ask is MeasureDisk,
{
}

/// What a claim measured and the position it read are what it asks the slot with, and what the slot
/// says is what it ends with.
pub proof fn law_a_claim_carries_what_it_read(
    measuring: ReloadAttempt,
    disk: Option<(GraphFp, bool)>,
    reading: ReloadAttempt,
    scan_cutoff: u64,
    granting: ReloadAttempt,
    claim: ReloadClaim,
    over: ReloadAttempt,
)
    requires
        measuring.ask is MeasureDisk,
        call_ensures(ReloadAttempt::reply, (measuring, ClaimReply::Disk(disk)), reading),
        call_ensures(ReloadAttempt::reply, (reading, ClaimReply::Cutoff(scan_cutoff)), granting),
        call_ensures(ReloadAttempt::reply, (granting, ClaimReply::Granted(claim)), over),
    ensures
        reading.ask == (ClaimAsk::ReadCutoff { disk }),
        granting.ask == (ClaimAsk::Grant { disk, scan_cutoff }),
        over.ask == ClaimAsk::Done(claim),
        reading.force == measuring.force && granting.force == measuring.force && over.force
            == measuring.force,
{
}

/// A forced claim, which measured nothing, asks the slot with nothing measured.
pub proof fn law_a_forced_claim_measures_nothing(
    begun: ReloadAttempt,
    reading: ReloadAttempt,
    scan_cutoff: u64,
    granting: ReloadAttempt,
    claim: ReloadClaim,
    over: ReloadAttempt,
)
    requires
        call_ensures(ReloadAttempt::begin, (true,), begun),
        call_ensures(ReloadAttempt::reply, (begun, ClaimReply::Owns(true)), reading),
        call_ensures(ReloadAttempt::reply, (reading, ClaimReply::Cutoff(scan_cutoff)), granting),
        call_ensures(ReloadAttempt::reply, (granting, ClaimReply::Granted(claim)), over),
    ensures
        granting.ask == (ClaimAsk::Grant { disk: None, scan_cutoff }),
        over.ask == ClaimAsk::Done(claim),
{
}

/// A kick answers an ask it took and lets go either way; it looks for another ask only once it let
/// go, and without one it is over.
pub proof fn law_a_kick_lets_go_before_it_looks_again(
    begun: Kick,
    taken: bool,
    took: Kick,
    answering: Kick,
    answered: Kick,
    releasing: Kick,
    asked: bool,
    released: Kick,
)
    requires
        call_ensures(Kick::begin, (), begun),
        call_ensures(Kick::reply, (begun, KickReply::Taken(taken)), took),
        answering.ask is EnsureLoading,
        call_ensures(Kick::reply, (answering, KickReply::Finished), answered),
        releasing.ask is Release,
        call_ensures(Kick::reply, (releasing, KickReply::Asked(asked)), released),
    ensures
        begun.ask is TakeAsk,
        taken <==> took.ask is EnsureLoading,
        !taken <==> took.ask is Release,
        answered.ask is Release,
        asked <==> released.ask is ReadHold,
        !asked <==> released.ask is Done,
{
}

/// A hold is waited out to its moment and no further, and a kick that was not stopped meanwhile
/// takes itself again to answer what is left; one it cannot take has another carrier.
pub proof fn law_a_kick_waits_its_hold_out(
    reading: Kick,
    until: Option<u64>,
    now: u64,
    held: Kick,
    sleeping: Kick,
    stopped: bool,
    slept: Kick,
    resuming: Kick,
    resumed: bool,
    back: Kick,
)
    requires
        reading.ask is ReadHold,
        call_ensures(Kick::reply, (reading, KickReply::Held { until, now }), held),
        sleeping.ask is Sleep,
        call_ensures(Kick::reply, (sleeping, KickReply::Slept { stopped }), slept),
        resuming.ask is Resume,
        call_ensures(Kick::reply, (resuming, KickReply::Resumed(resumed)), back),
    ensures
        until is None ==> held.ask is Resume,
        until matches Some(moment) ==> (held.ask matches KickAsk::Sleep(wait) && (if moment <= now {
            wait == 0
        } else {
            now + wait == moment
        })),
        stopped <==> slept.ask is Done,
        !stopped <==> slept.ask is Resume,
        resumed <==> back.ask is TakeAsk,
        !resumed <==> back.ask is Done,
{
}

/// A probe reserves on the facts it read, and walks exactly where the walk was reserved.
pub proof fn law_a_probe_walks_only_what_it_reserved(
    begun: Probe,
    facts: Facts,
    reserving: Probe,
    reserved: bool,
    next: Probe,
)
    requires
        call_ensures(Probe::begin, (), begun),
        call_ensures(Probe::reply, (begun, ProbeReply::Facts(facts)), reserving),
        call_ensures(Probe::reply, (reserving, ProbeReply::Reserved(reserved)), next),
    ensures
        begun.ask is ReadFacts,
        reserving.ask == ProbeAsk::Reserve(facts),
        reserved <==> next.ask is Walk,
        !reserved <==> next.ask is Done,
{
}

/// A walk that could not look gives its reservation back as such. One that looked is recorded
/// exactly where the lease is not lost and nobody was asked to leave; otherwise its reservation is
/// given back as obsolete.
pub proof fn law_a_walk_is_recorded_only_by_an_owner(
    walking: Probe,
    unseen: Probe,
    looked: Probe,
    terminal: bool,
    asking: Probe,
    stopped: bool,
    next: Probe,
)
    requires
        walking.ask is Walk,
        call_ensures(Probe::reply, (walking, ProbeReply::Walked { looked: false }), unseen),
        call_ensures(Probe::reply, (walking, ProbeReply::Walked { looked: true }), looked),
        call_ensures(Probe::reply, (looked, ProbeReply::Lease { terminal }), asking),
        call_ensures(Probe::reply, (asking, ProbeReply::Stop { stopped }), next),
    ensures
        unseen.ask == ProbeAsk::Release(ProbeResult::CouldNotLook),
        looked.ask is ReadLease,
        asking.ask is ReadStop,
        terminal || stopped ==> next.ask == ProbeAsk::Release(ProbeResult::Obsolete),
        !terminal && !stopped ==> next.ask is Finish,
{
}

/// A probe acts exactly on new evidence, and then wakes the watcher before it decides.
pub proof fn law_new_evidence_is_acted_on(
    finishing: Probe,
    result: ProbeResult,
    next: Probe,
    ending: Probe,
    over: Probe,
    steps: Vec<GraphStep>,
)
    requires
        finishing.ask is Finish,
        call_ensures(Probe::reply, (finishing, ProbeReply::Result(result)), next),
        ending.ask is Release || ending.ask is Act,
        call_ensures(Probe::reply, (ending, ProbeReply::Finished), over),
        call_ensures(evidence_found, (), steps),
    ensures
        result is NewEvidence <==> next.ask is Act,
        !(result is NewEvidence) <==> next.ask is Done,
        over.ask is Done,
        steps@ == seq![GraphStep::Wake, GraphStep::Drive],
{
}

/// A reservation is asked for the lifecycle as it stands, a claim in the meantime included, and the
/// plan is taken exactly where that still says to look.
pub proof fn law_a_reservation_is_decided_as_things_stand<
    P,
    D: FnOnce(Facts) -> bool,
    R: FnOnce() -> Option<P>,
>(inner: &Inner, facts: Facts, stopping: bool, decide: D, take: R, plan: Option<P>)
    requires
        call_ensures(reserve::<P, D, R>, (inner, facts, stopping, decide, take), plan),
    ensures
        exists|live: Facts, look: bool| #[trigger]
            decide.ensures((live,), look) && {
                &&& live.ready == (inner.status is Ready)
                &&& live.failed == (inner.status is Failed)
                &&& live.idle == (inner.status is Idle)
                &&& live.in_flight == (inner.status is Loading || inner.claimed is Some
                    || inner.building is Some || (inner.published matches Some(published)
                    && published.reload is Running))
                &&& live.owns == facts.owns
                &&& live.terminal == facts.terminal
                &&& live.stopping == stopping
                &&& look ==> take.ensures((), plan)
                &&& !look ==> plan is None
            },
{
    let live = crate::probe::live_reading(*inner, facts, stopping);
    if decide.ensures((live,), true) && take.ensures((), plan) {
        assert(decide.ensures((live,), true));
    } else {
        assert(decide.ensures((live,), false));
    }
}

/// A boot claims the first build before anything else, and only over a workspace; refused, it
/// leaves the graph to whoever has it. Granted, it reads the stream's position before any disk.
pub proof fn law_a_boot_claims_before_it_reads(
    has_root: bool,
    begun: Startup,
    claiming: Startup,
    claimed: bool,
    next: Startup,
    reading: Startup,
    observed: u64,
    cached: Startup,
)
    requires
        call_ensures(Startup::begin, (has_root,), begun),
        claiming.ask is Claim,
        call_ensures(Startup::reply, (claiming, StartupReply::Claimed(claimed)), next),
        reading.ask is ReadObservation,
        call_ensures(Startup::reply, (reading, StartupReply::Observed(observed)), cached),
    ensures
        has_root ==> begun.ask is Claim,
        !has_root ==> begun.ask == StartupAsk::Done(FusedStartup::Standalone),
        claimed ==> next.ask is ReadObservation,
        !claimed ==> next.ask == StartupAsk::Done(FusedStartup::Standalone),
        cached.ask == (StartupAsk::PublishCached { observed }),
{
}

/// A cache that is current is tried before one that drifted, under the same position. A published
/// one is the end of the boot, a refused one is recorded, and only where neither was there is the
/// search engine asked for its embedder.
pub proof fn law_a_boot_tries_its_caches_in_turn(
    observed: u64,
    cached: Startup,
    attempt: PublishAttempt,
    after_cached: Startup,
    drifted: Startup,
    after_drifted: Startup,
    recording: Startup,
    recorded: Startup,
)
    requires
        cached.ask == (StartupAsk::PublishCached { observed }),
        call_ensures(Startup::reply, (cached, StartupReply::Attempt(attempt)), after_cached),
        drifted.ask == (StartupAsk::PublishStale { observed }),
        call_ensures(Startup::reply, (drifted, StartupReply::Attempt(attempt)), after_drifted),
        recording.ask is RecordFailure,
        call_ensures(Startup::reply, (recording, StartupReply::Finished), recorded),
    ensures
        attempt is Published ==> after_cached.ask == StartupAsk::Done(FusedStartup::Standalone)
            && after_drifted.ask == StartupAsk::Done(FusedStartup::Standalone),
        attempt is Refused ==> after_cached.ask is RecordFailure && after_drifted.ask
            is RecordFailure,
        attempt is FallBack ==> after_cached.ask == (StartupAsk::PublishStale { observed })
            && after_drifted.ask == (StartupAsk::AskSemantic { observed }),
        recorded.ask == StartupAsk::Done(FusedStartup::Standalone),
{
}

/// With an embedder the boot builds both at once, under the position it read, and reports a fused
/// start exactly where that succeeded; without one it gives its claim back for an ordinary build.
pub proof fn law_a_boot_fuses_where_there_is_an_embedder(
    observed: u64,
    asking: Startup,
    semantic: bool,
    next: Startup,
    building: Startup,
    built: bool,
    over: Startup,
    aborting: Startup,
    aborted: Startup,
)
    requires
        asking.ask == (StartupAsk::AskSemantic { observed }),
        call_ensures(Startup::reply, (asking, StartupReply::Semantic(semantic)), next),
        building.ask is FusedBuild,
        call_ensures(Startup::reply, (building, StartupReply::Built(built)), over),
        aborting.ask is AbortAndLoad,
        call_ensures(Startup::reply, (aborting, StartupReply::Finished), aborted),
    ensures
        semantic ==> next.ask == (StartupAsk::FusedBuild { observed }),
        !semantic ==> next.ask is AbortAndLoad,
        built ==> over.ask == StartupAsk::Done(FusedStartup::Fused),
        !built ==> over.ask == StartupAsk::Done(FusedStartup::Standalone),
        aborted.ask == StartupAsk::Done(FusedStartup::Standalone),
{
}

} // verus!
