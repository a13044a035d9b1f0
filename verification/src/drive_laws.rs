//! What the executor does with what it is told, reply by reply.
//!
//! Each law speaks of whatever a drive or a run answers: which of the decided work it asks for, in
//! which order, when it goes on and when it ends, and what the end of a run's claim leads to.

use crate::debt::{BuildKind, BuildStart, Decision, Facts};
use crate::executor::{
    run_ended, BuildRun, Drive, DriveAsk, DriveReply, Executor, RunAsk, RunEnd, RunReply,
    StartOutcome,
};
use crate::inner::ReloadClaim;
use crate::intake::GraphStep;
use vstd::prelude::*;

verus! {

/// A drive begins by reading the lifecycle, with its whole quantum before it; one over no workspace
/// has nothing to do.
pub proof fn law_a_drive_begins_by_reading(has_root: bool, executor: Executor, drive: Drive)
    requires
        call_ensures(Drive::begin, (has_root, executor), drive),
    ensures
        drive.executor == executor,
        drive.turns == 0,
        has_root <==> drive.ask is EntryFacts,
        !has_root <==> drive.ask is Done,
{
}

/// On entry a lost workspace drops its debts, a leaving one drops nothing and does nothing, an
/// unconfirmed owner asks whether anything is owed before it holds, and every other one takes its
/// first turn.
pub proof fn law_a_drive_enters_by_its_standing(drive: Drive, facts: Facts, next: Drive)
    requires
        drive.ask is EntryFacts,
        call_ensures(Drive::reply, (drive, DriveReply::Facts(facts)), next),
    ensures
        next.executor == drive.executor && next.turns == drive.turns,
        next.ask is Abandon <==> facts.terminal,
        next.ask is Done <==> !facts.terminal && facts.stopping,
        next.ask is AskStale <==> !facts.terminal && !facts.stopping && !facts.owns,
        next.ask is TurnFacts <==> !facts.terminal && !facts.stopping && facts.owns,
{
}

/// A decision is held exactly where something is owed.
pub proof fn law_a_decision_is_held_where_something_is_owed(drive: Drive, stale: bool, next: Drive)
    requires
        drive.ask is AskStale,
        call_ensures(Drive::reply, (drive, DriveReply::Stale(stale)), next),
    ensures
        next.executor == drive.executor && next.turns == drive.turns,
        stale <==> next.ask is Hold,
        !stale <==> next.ask is Done,
{
}

/// A turn is decided on the very facts it read, wherever the workspace is owned, nothing is in
/// flight and nobody is leaving; anywhere else the drive is over.
pub proof fn law_a_turn_is_decided_on_its_own_facts(drive: Drive, facts: Facts, next: Drive)
    requires
        drive.ask is TurnFacts,
        call_ensures(Drive::reply, (drive, DriveReply::Facts(facts)), next),
    ensures
        next.executor == drive.executor && next.turns == drive.turns,
        next.ask == DriveAsk::Decide(facts) <==> facts.owns && !facts.in_flight && !facts.terminal
            && !facts.stopping,
        next.ask is Decide || next.ask is Done,
{
}

/// From the facts of a turn that allow one, a decided build is the very next thing asked for, and
/// it is that build, unless the watcher is driving an idle graph. Only a decision without a build
/// asks for the comparison, and only one without either for the probe; in each of them the hook's
/// offer follows exactly where one is owed.
pub proof fn law_what_a_turn_decides_is_what_it_asks_for(
    drive: Drive,
    facts: Facts,
    decision: Decision,
    deciding: Drive,
    next: Drive,
)
    requires
        drive.ask is TurnFacts,
        facts.owns && !facts.in_flight && !facts.terminal && !facts.stopping,
        call_ensures(Drive::reply, (drive, DriveReply::Facts(facts)), deciding),
        call_ensures(Drive::reply, (deciding, DriveReply::Decision(decision)), next),
    ensures
        next.executor == drive.executor && next.turns == drive.turns,
        decision.start matches Some(start) ==> {
            let kept_for_the_boot = drive.executor is NotTheFirstBuild && facts.idle;
            &&& !kept_for_the_boot ==> next.ask == (DriveAsk::Start {
                start,
                flush: decision.flush_hook.topology || decision.flush_hook.roots,
            })
            &&& kept_for_the_boot ==> only_the_offer(decision, next.ask)
        },
        decision.start is None && decision.check ==> next.ask == (DriveAsk::Check {
            flush: decision.flush_hook.topology || decision.flush_hook.roots,
        }),
        decision.start is None && !decision.check && decision.probe ==> next.ask is Probe,
        decision.start is None && !decision.check && !decision.probe ==> only_the_offer(
            decision,
            next.ask,
        ),
{
}

/// A turn that starts nothing makes the offer the hook is owed, or is the last.
pub open spec fn only_the_offer(decision: Decision, ask: DriveAsk) -> bool {
    if decision.flush_hook.topology || decision.flush_hook.roots {
        ask == DriveAsk::Flush { acted: false }
    } else {
        ask is Done
    }
}

/// A started build that settled ends the drive, whatever the hook is owed. One that answered
/// without building, and every comparison, are actions of their turn: the owed offer follows, or
/// the next turn does.
pub proof fn law_an_action_is_followed_by_the_offer(
    drive: Drive,
    outcome: StartOutcome,
    started: Drive,
    other: Drive,
    checked: Drive,
)
    requires
        drive.ask is Start && drive.turns < 8,
        call_ensures(Drive::reply, (drive, DriveReply::Started(outcome)), started),
        other.ask is Check && other.turns < 8,
        call_ensures(Drive::reply, (other, DriveReply::Finished), checked),
    ensures
        started.executor == drive.executor && checked.executor == other.executor,
        outcome is Settled ==> started.ask is Done && started.turns == drive.turns,
        outcome is AnsweredWithoutBuilding && drive.ask->Start_flush ==> started.ask
            == (DriveAsk::Flush { acted: true }) && started.turns == drive.turns,
        outcome is AnsweredWithoutBuilding && !drive.ask->Start_flush ==> goes_on(drive, started),
        other.ask->Check_flush ==> checked.ask == (DriveAsk::Flush { acted: true })
            && checked.turns == other.turns,
        !other.ask->Check_flush ==> goes_on(other, checked),
{
}

/// The turn counted, and either another one begins or the eighth hands over what is left.
pub open spec fn goes_on(before: Drive, after: Drive) -> bool {
    &&& after.turns == before.turns + 1
    &&& after.ask is TurnFacts <==> before.turns + 1 < 8
    &&& after.ask is Latch <==> before.turns + 1 >= 8
}

/// A turn counts where it acted or its offer was taken of, and a turn that did neither ends the
/// drive.
pub proof fn law_a_declined_offer_is_no_action(drive: Drive, taken: bool, next: Drive)
    requires
        drive.ask is Flush && drive.turns < 8,
        call_ensures(Drive::reply, (drive, DriveReply::Flushed(taken)), next),
    ensures
        next.executor == drive.executor,
        drive.ask->Flush_acted || taken ==> goes_on(drive, next),
        !drive.ask->Flush_acted && !taken ==> next.ask is Done && next.turns == drive.turns,
{
}

/// A drive ends with what it dropped, held, probed or handed on.
pub proof fn law_a_drive_ends_with_its_last_word(drive: Drive, next: Drive)
    requires
        drive.ask is Abandon || drive.ask is Hold || drive.ask is Probe || drive.ask is Latch,
        call_ensures(Drive::reply, (drive, DriveReply::Finished), next),
    ensures
        next.ask is Done,
        next.executor == drive.executor && next.turns == drive.turns,
{
}

/// A run reads the stream's position before it claims anything, and claims what it was begun for:
/// the first build, or the reload slot with that position. A comparison is an unforced reload's.
pub proof fn law_a_run_claims_what_it_was_begun_for(
    start: BuildStart,
    begun: BuildRun,
    check: BuildRun,
    position: u64,
    claiming: BuildRun,
)
    requires
        call_ensures(BuildRun::begin, (start,), begun),
        call_ensures(BuildRun::check, (), check),
        call_ensures(BuildRun::reply, (begun, RunReply::Position(position)), claiming),
    ensures
        begun.start == start && begun.ask is ReadPosition,
        check.start.kind is Reload && !check.start.forced && check.ask is ReadPosition,
        claiming.start == start,
        start.kind is Initial ==> claiming.ask is ClaimFirstBuild,
        start.kind is Reload ==> claiming.ask == (RunAsk::ClaimReload { position }),
{
}

/// Wherever the claim found disk matching, what follows is the answer to every change the position
/// and the scan both cover, to the failure that was owed a retry, and to a failed reload; it is the
/// same for a forced run and for an unforced one, and the caller is told that nothing was built.
pub proof fn law_a_run_that_was_not_owed_answers_its_debts(
    run: BuildRun,
    position: u64,
    reading: BuildRun,
    watermark: u64,
    performing: BuildRun,
    steps: Vec<GraphStep>,
    over: BuildRun,
)
    requires
        run.ask == (RunAsk::ClaimReload { position }),
        call_ensures(BuildRun::reply, (run, RunReply::Reload(ReloadClaim::NotOwed)), reading),
        call_ensures(BuildRun::reply, (reading, RunReply::Watermark(watermark)), performing),
        performing.ask matches RunAsk::Perform(end) ==> call_ensures(
            run_ended,
            (run.start.forced, end),
            steps,
        ),
        call_ensures(BuildRun::reply, (performing, RunReply::Finished), over),
    ensures
        reading.ask == (RunAsk::ReadWatermark { position }) && performing.ask is Perform,
        reading.start == run.start && performing.start == run.start && over.start == run.start,
        steps@ == seq![
            GraphStep::AnswerChange(
                if position <= watermark {
                    position
                } else {
                    watermark
                },
            ),
            GraphStep::AnswerFailure,
            GraphStep::ClearFailedReload,
        ],
        over.ask == RunAsk::Done(StartOutcome::AnsweredWithoutBuilding),
{
}

/// The three answers of a comparison that found disk matching.
pub open spec fn answers_a_debt(step: GraphStep) -> bool {
    step is AnswerChange || step is AnswerFailure || step is ClearFailedReload
}

/// No other claim on the reload slot answers anything, forced or not. A granted one starts its
/// builder, and a forced one pays for it out of the marks' budget first; an unconfirmed owner holds
/// the decision and wakes the watcher; and no account to pay, a build in the slot or a graph that is
/// leaving lead to nothing. The caller hears that the outcome is settled.
pub proof fn law_no_other_claim_answers_a_debt(
    run: BuildRun,
    claim: ReloadClaim,
    performing: BuildRun,
    steps: Vec<GraphStep>,
    over: BuildRun,
)
    requires
        run.ask is ClaimReload,
        !(claim is NotOwed),
        call_ensures(BuildRun::reply, (run, RunReply::Reload(claim)), performing),
        performing.ask matches RunAsk::Perform(end) ==> call_ensures(
            run_ended,
            (run.start.forced, end),
            steps,
        ),
        call_ensures(BuildRun::reply, (performing, RunReply::Finished), over),
    ensures
        performing.ask is Perform,
        performing.start == run.start && over.start == run.start,
        forall|i: int| 0 <= i < steps@.len() ==> !answers_a_debt(#[trigger] steps@[i]),
        match claim {
            ReloadClaim::Claimed => if run.start.forced {
                steps@ == seq![GraphStep::SpendMarkAttempt, GraphStep::SpawnReload]
            } else {
                steps@ == seq![GraphStep::SpawnReload]
            },
            ReloadClaim::Held => steps@ == seq![GraphStep::Hold, GraphStep::Wake],
            _ => steps@.len() == 0,
        },
        over.ask == RunAsk::Done(StartOutcome::Settled),
{
}

/// Every claim but one that was not owed goes straight to what follows it.
pub proof fn law_only_an_unowed_claim_reads_the_watermark(
    run: BuildRun,
    claim: ReloadClaim,
    next: BuildRun,
)
    requires
        run.ask is ClaimReload,
        call_ensures(BuildRun::reply, (run, RunReply::Reload(claim)), next),
    ensures
        next.ask is ReadWatermark <==> claim is NotOwed,
        next.ask is Perform <==> !(claim is NotOwed),
{
}

/// The first build spends the marks' budget exactly where it is forced and was claimed, and leads to
/// nothing else: its loader is the claim's own.
pub proof fn law_the_first_build_spends_only_for_a_claimed_attempt(
    run: BuildRun,
    claimed: bool,
    performing: BuildRun,
    steps: Vec<GraphStep>,
    over: BuildRun,
)
    requires
        run.ask is ClaimFirstBuild,
        call_ensures(BuildRun::reply, (run, RunReply::FirstBuild { claimed }), performing),
        performing.ask matches RunAsk::Perform(end) ==> call_ensures(
            run_ended,
            (run.start.forced, end),
            steps,
        ),
        call_ensures(BuildRun::reply, (performing, RunReply::Finished), over),
    ensures
        performing.ask is Perform,
        performing.start == run.start && over.start == run.start,
        run.start.forced && claimed ==> steps@ == seq![GraphStep::SpendMarkAttempt],
        !(run.start.forced && claimed) ==> steps@.len() == 0,
        over.ask == RunAsk::Done(StartOutcome::Settled),
{
}

/// Whatever ended a run, its steps answer debts exactly where a comparison answered, forced or not.
pub proof fn law_forcing_a_run_changes_no_answer(
    end: RunEnd,
    forced: Vec<GraphStep>,
    unforced: Vec<GraphStep>,
)
    requires
        call_ensures(run_ended, (true, end), forced),
        call_ensures(run_ended, (false, end), unforced),
    ensures
        end matches RunEnd::Answered { through } ==> forced@ == unforced@ && forced@ == seq![
            GraphStep::AnswerChange(through),
            GraphStep::AnswerFailure,
            GraphStep::ClearFailedReload,
        ],
        !(end is Answered) ==> forall|i: int|
            0 <= i < forced@.len() ==> !answers_a_debt(#[trigger] forced@[i]),
        !(end is Answered) ==> forall|i: int|
            0 <= i < unforced@.len() ==> !answers_a_debt(#[trigger] unforced@[i]),
        end is Claimed ==> unforced@ == seq![GraphStep::SpawnReload] && forced@ == seq![
            GraphStep::SpendMarkAttempt,
            GraphStep::SpawnReload,
        ],
        end is Held ==> forced@ == unforced@ && forced@ == seq![GraphStep::Hold, GraphStep::Wake],
        end is Nothing ==> forced@.len() == 0 && unforced@.len() == 0,
{
}

} // verus!
