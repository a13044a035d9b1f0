use graph_state::debt::{BuildKind, BuildStart, Decision, Facts, HookDebt, ProbeResult};
use graph_state::executor::{
    run_ended, BuildRun, Drive, DriveAsk, DriveReply, Executor, RunAsk, RunReply, StartOutcome,
    QUANTUM,
};
use graph_state::inner::{Inner, ReloadClaim};
use graph_state::intake::GraphStep;
use graph_state::probe::{evidence_found, reserve, Probe, ProbeAsk, ProbeReply};
use graph_state::startup::{
    FusedStartup, PublishAttempt, Startup, StartupAsk, StartupReply,
};
use graph_state::types::GraphStatus;

const NOTHING: HookDebt = HookDebt { topology: false, roots: false };
const OWED: HookDebt = HookDebt { topology: true, roots: false };
const QUIET: Decision =
    Decision { start: None, check: false, probe: false, flush_hook: NOTHING, wake_at: None };
const INITIAL: BuildStart = BuildStart { kind: BuildKind::Initial, forced: false };
const RELOAD: BuildStart = BuildStart { kind: BuildKind::Reload, forced: true };

fn facts() -> Facts {
    Facts {
        ready: true,
        failed: false,
        idle: false,
        in_flight: false,
        owns: true,
        terminal: false,
        stopping: false,
    }
}

/// Drive under these answers; says what it asked for last.
fn driven(executor: Executor, replies: &[DriveReply]) -> Drive {
    let mut drive = Drive::begin(true, executor);
    for reply in replies {
        drive = drive.reply(*reply);
    }
    drive
}

#[test]
fn a_stopped_graph_starts_nothing_however_it_is_driven() {
    let stopped = Facts { stopping: true, ..facts() };
    for executor in [Executor::Any, Executor::NotTheFirstBuild] {
        assert_eq!(driven(executor, &[DriveReply::Facts(stopped)]).ask, DriveAsk::Done);
        assert_eq!(
            driven(executor, &[DriveReply::Facts(facts()), DriveReply::Facts(stopped)]).ask,
            DriveAsk::Done,
        );
    }
    assert_eq!(Drive::begin(false, Executor::Any).ask, DriveAsk::Done);
}

#[test]
fn a_lost_workspace_drops_its_debts_and_nothing_else() {
    let lost = Facts { terminal: true, owns: false, ..facts() };
    let drive = driven(Executor::Any, &[DriveReply::Facts(lost)]);
    assert_eq!(drive.ask, DriveAsk::Abandon);
    assert_eq!(drive.reply(DriveReply::Finished).ask, DriveAsk::Done);
}

#[test]
fn an_unconfirmed_lease_holds_only_what_is_owed() {
    let unowned = DriveReply::Facts(Facts { owns: false, ..facts() });
    assert_eq!(driven(Executor::Any, &[unowned]).ask, DriveAsk::AskStale);
    assert_eq!(driven(Executor::Any, &[unowned, DriveReply::Stale(true)]).ask, DriveAsk::Hold);
    assert_eq!(driven(Executor::Any, &[unowned, DriveReply::Stale(false)]).ask, DriveAsk::Done);
}

/// The watcher records an idle graph's debt and never takes its first build.
#[test]
fn the_watcher_records_an_idle_graphs_debt_without_taking_its_build() {
    let idle = DriveReply::Facts(Facts { ready: false, idle: true, ..facts() });
    let start = DriveReply::Decision(Decision { start: Some(INITIAL), ..QUIET });
    assert_eq!(
        driven(Executor::NotTheFirstBuild, &[idle, idle, start]).ask,
        DriveAsk::Done,
        "the watcher's alarm took the first build of an idle graph",
    );
    // The control: the unrestricted executor does take it.
    assert_eq!(
        driven(Executor::Any, &[idle, idle, start]).ask,
        DriveAsk::Start { start: INITIAL, flush: false },
    );
    // And a failed graph's retry is the watcher's to run.
    let failed = DriveReply::Facts(Facts { ready: false, failed: true, ..facts() });
    assert_eq!(
        driven(Executor::NotTheFirstBuild, &[failed, failed, start]).ask,
        DriveAsk::Start { start: INITIAL, flush: false },
    );
}

#[test]
fn nudge_rebuild_from_idle_starts_the_initial_load() {
    let idle = DriveReply::Facts(Facts { ready: false, idle: true, ..facts() });
    let start = DriveReply::Decision(Decision { start: Some(INITIAL), ..QUIET });
    let drive = driven(Executor::Any, &[idle, idle, start]);
    assert_eq!(drive.ask, DriveAsk::Start { start: INITIAL, flush: false });
    let run = BuildRun::begin(INITIAL);
    assert_eq!(run.ask, RunAsk::ReadPosition);
    assert_eq!(run.reply(RunReply::Position(4)).ask, RunAsk::ClaimFirstBuild);
    assert_eq!(drive.reply(DriveReply::Started(StartOutcome::Settled)).ask, DriveAsk::Done);
}

/// A turn offers each hook revision once, after the comparison that answered without building.
#[test]
fn one_comparison_turn_flushes_each_hook_revision_once() {
    let check = DriveReply::Decision(Decision { check: true, flush_hook: OWED, ..QUIET });
    let f = DriveReply::Facts(facts());
    let drive = driven(Executor::Any, &[f, f, check]);
    assert_eq!(drive.ask, DriveAsk::Check { flush: true });
    let drive = drive.reply(DriveReply::Finished);
    assert_eq!(drive.ask, DriveAsk::Flush { acted: true });
    let drive = drive.reply(DriveReply::Flushed(true));
    // The next turn reads the state that action changed.
    assert_eq!((drive.ask, drive.turns), (DriveAsk::TurnFacts, 1));
    assert_eq!(drive.reply(f).reply(DriveReply::Decision(QUIET)).ask, DriveAsk::Done);
}

/// A fact left ripe by an answered comparison is run in the same drive.
#[test]
fn a_new_fact_during_comparison_runs_before_idle_wait() {
    let f = DriveReply::Facts(facts());
    let start = DriveReply::Decision(Decision { start: Some(RELOAD), ..QUIET });
    let drive = driven(Executor::Any, &[f, f, start]);
    let drive = drive.reply(DriveReply::Started(StartOutcome::AnsweredWithoutBuilding));
    assert_eq!((drive.ask, drive.turns), (DriveAsk::TurnFacts, 1));
    // And the comparison answered only what its own walk covered.
    let answers = |run: BuildRun, position: u64, watermark: u64| {
        ended(run, &[
            RunReply::Position(position),
            RunReply::Reload(ReloadClaim::NotOwed),
            RunReply::Watermark(watermark),
        ])
    };
    let (steps, outcome) = answers(BuildRun::begin(RELOAD), 10, 15);
    assert_eq!(
        steps,
        vec![
            GraphStep::AnswerChange(10),
            GraphStep::AnswerFailure,
            GraphStep::ClearFailedReload
        ],
    );
    assert_eq!(outcome, StartOutcome::AnsweredWithoutBuilding);
    assert_eq!(
        answers(BuildRun::check(), 15, 10).0[0],
        GraphStep::AnswerChange(10),
        "the comparison answered a fact its own cutoff never covered",
    );
}

/// What a run performed and how it ended, under these answers.
fn ended(run: BuildRun, replies: &[RunReply]) -> (Vec<GraphStep>, StartOutcome) {
    let mut run = run;
    for reply in replies {
        run = run.reply(*reply);
    }
    let RunAsk::Perform(end) = run.ask else { panic!("nothing to perform yet: {:?}", run.ask) };
    let steps = run_ended(run.start.forced, end);
    match run.reply(RunReply::Finished).ask {
        RunAsk::Done(outcome) => (steps, outcome),
        other => panic!("a run that was performed is over, and yet {other:?}"),
    }
}

fn claimed(start: BuildStart, claim: ReloadClaim) -> (Vec<GraphStep>, StartOutcome) {
    ended(BuildRun::begin(start), &[RunReply::Position(1), RunReply::Reload(claim)])
}

/// The position is read before the claim, and the watermark after it and only where disk matched.
#[test]
fn the_position_is_read_before_the_claim() {
    let run = BuildRun::check();
    assert_eq!(run.ask, RunAsk::ReadPosition);
    let run = run.reply(RunReply::Position(7));
    assert_eq!(run.ask, RunAsk::ClaimReload { position: 7 });
    let matched = run.reply(RunReply::Reload(ReloadClaim::NotOwed));
    assert_eq!(matched.ask, RunAsk::ReadWatermark { position: 7 });
    let moved = run.reply(RunReply::Reload(ReloadClaim::Claimed));
    assert!(matches!(moved.ask, RunAsk::Perform(_)));
}

#[test]
fn a_quantum_that_runs_out_hands_its_work_on() {
    let f = DriveReply::Facts(facts());
    let check = DriveReply::Decision(Decision { check: true, ..QUIET });
    let mut drive = Drive::begin(true, Executor::Any).reply(f);
    for turn in 0..QUANTUM {
        assert_eq!((drive.ask, drive.turns), (DriveAsk::TurnFacts, turn));
        drive = drive.reply(f).reply(check).reply(DriveReply::Finished);
    }
    assert_eq!(drive.ask, DriveAsk::Latch);
    assert_eq!(drive.reply(DriveReply::Finished).ask, DriveAsk::Done);
}

#[test]
fn a_declined_offer_ends_the_turn() {
    let f = DriveReply::Facts(facts());
    let flush = DriveReply::Decision(Decision { flush_hook: OWED, ..QUIET });
    let drive = driven(Executor::Any, &[f, f, flush]);
    assert_eq!(drive.ask, DriveAsk::Flush { acted: false });
    assert_eq!(
        drive.reply(DriveReply::Flushed(false)).ask,
        DriveAsk::Done,
        "a refusal latched a continuation, so the owner comes back with a zero wait",
    );
    assert_eq!(drive.reply(DriveReply::Flushed(true)).ask, DriveAsk::TurnFacts);
}

#[test]
fn a_build_in_flight_decides_nothing() {
    let f = DriveReply::Facts(facts());
    let busy = DriveReply::Facts(Facts { in_flight: true, ..facts() });
    assert_eq!(driven(Executor::Any, &[f, busy]).ask, DriveAsk::Done);
    let probing = DriveReply::Decision(Decision { probe: true, flush_hook: OWED, ..QUIET });
    let drive = driven(Executor::Any, &[f, f, probing]);
    assert_eq!(drive.ask, DriveAsk::Probe);
    assert_eq!(drive.reply(DriveReply::Finished).ask, DriveAsk::Done);
}

#[test]
fn a_decision_that_claims_no_build_spends_no_mark_attempt() {
    let ordinary = BuildStart { forced: false, ..RELOAD };
    assert_eq!(
        claimed(RELOAD, ReloadClaim::Held),
        (vec![GraphStep::Hold, GraphStep::Wake], StartOutcome::Settled),
        "a decision that built nothing still charged the marks' budget",
    );
    for claim in [ReloadClaim::Running, ReloadClaim::Unsponsored, ReloadClaim::Stopping] {
        assert_eq!(claimed(RELOAD, claim), (Vec::new(), StartOutcome::Settled));
        assert_eq!(claimed(ordinary, claim), (Vec::new(), StartOutcome::Settled));
    }
    assert_eq!(
        claimed(RELOAD, ReloadClaim::Claimed).0,
        vec![GraphStep::SpendMarkAttempt, GraphStep::SpawnReload],
    );
    assert_eq!(claimed(ordinary, ReloadClaim::Claimed).0, vec![GraphStep::SpawnReload]);
    let first = |forced: bool, claimed: bool| {
        let run = BuildRun::begin(BuildStart { forced, ..INITIAL });
        ended(run, &[RunReply::Position(1), RunReply::FirstBuild { claimed }]).0
    };
    assert_eq!(first(true, true), vec![GraphStep::SpendMarkAttempt]);
    assert!(first(true, false).is_empty());
    assert!(first(false, true).is_empty());
}

fn probed(replies: &[ProbeReply]) -> ProbeAsk {
    let mut probe = Probe::begin();
    for reply in replies {
        probe = probe.reply(*reply);
    }
    probe.ask
}

const RESERVED: ProbeReply = ProbeReply::Reserved(true);
const LOOKED: ProbeReply = ProbeReply::Walked { looked: true };
const KEPT: ProbeReply = ProbeReply::Lease { terminal: false };
const STAYS: ProbeReply = ProbeReply::Stop { stopped: false };

#[test]
fn concurrent_probe_callers_share_one_reservation() {
    let f = ProbeReply::Facts(facts());
    assert_eq!(probed(&[f]), ProbeAsk::Reserve(facts()));
    assert_eq!(probed(&[f, RESERVED]), ProbeAsk::Walk);
    assert_eq!(
        probed(&[f, ProbeReply::Reserved(false)]),
        ProbeAsk::Done,
        "a second caller that found the work owned opened the tree beside it",
    );
}

#[test]
fn a_walk_is_not_reserved_beside_an_admitted_build() {
    let mut inner = Inner::with_status(GraphStatus::Ready { files: 1 });
    let look = |live: Facts| !live.in_flight;
    assert_eq!(reserve(&inner, facts(), false, look, || Some(7)), Some(7));
    assert_eq!(reserve(&inner, facts(), false, look, || None::<u32>), None);
    // A ledger that decides against the look keeps its reservation free.
    let unasked = || -> Option<u32> { unreachable!() };
    assert_eq!(reserve(&inner, facts(), false, |_| false, unasked), None);
    // A build admitted between deciding to look and reserving the walk.
    inner.status = GraphStatus::Failed("x".to_owned());
    assert!(inner.ensure_loading_claimed(
        true,
        false,
        false,
        false,
        9,
        || (None, false),
        |_| (graph_state::debt::Sponsors { primary: true, marks: false }, 3, 1),
    ));
    assert_eq!(
        reserve(&inner, facts(), false, look, unasked),
        None,
        "a walk was reserved beside a build, and the reservation is no longer free",
    );
    let taken = inner.take_claimed_ticket();
    assert!(taken.is_some());
    inner.status = GraphStatus::Ready { files: 1 };
    assert_eq!(reserve(&inner, facts(), false, look, unasked), None, "a taken slot counts");
}

#[test]
fn a_stop_during_the_walk_refuses_what_it_measured() {
    let f = ProbeReply::Facts(facts());
    let walked = [f, RESERVED, LOOKED, KEPT, ProbeReply::Stop { stopped: true }];
    assert_eq!(probed(&walked), ProbeAsk::Release(ProbeResult::Obsolete));
    let lost = [f, RESERVED, LOOKED, ProbeReply::Lease { terminal: true }, STAYS];
    assert_eq!(probed(&lost), ProbeAsk::Release(ProbeResult::Obsolete));
    let blind = [f, RESERVED, ProbeReply::Walked { looked: false }];
    assert_eq!(probed(&blind), ProbeAsk::Release(ProbeResult::CouldNotLook));
}

#[test]
fn a_probe_acts_only_on_new_evidence() {
    let f = ProbeReply::Facts(facts());
    let measured = [f, RESERVED, LOOKED, KEPT, STAYS];
    assert_eq!(probed(&measured), ProbeAsk::Finish);
    for (result, ask) in [
        (ProbeResult::NewEvidence, ProbeAsk::Act),
        (ProbeResult::NoNewEvidence, ProbeAsk::Done),
        (ProbeResult::Obsolete, ProbeAsk::Done),
        (ProbeResult::CouldNotLook, ProbeAsk::Done),
    ] {
        let mut replies = measured.to_vec();
        replies.push(ProbeReply::Result(result));
        assert_eq!(probed(&replies), ask);
    }
    assert_eq!(evidence_found(), vec![GraphStep::Wake, GraphStep::Drive]);
}

fn booted(replies: &[StartupReply]) -> StartupAsk {
    let mut startup = Startup::begin(true);
    for reply in replies {
        startup = startup.reply(*reply);
    }
    startup.ask
}

const STANDALONE: StartupAsk = StartupAsk::Done(FusedStartup::Standalone);
const FALL_BACK: StartupReply = StartupReply::Attempt(PublishAttempt::FallBack);
const PUBLISHED: StartupReply = StartupReply::Attempt(PublishAttempt::Published);
const REFUSED: StartupReply = StartupReply::Attempt(PublishAttempt::Refused);

#[test]
fn a_boot_takes_the_cheapest_way_that_serves() {
    let claimed = StartupReply::Claimed(true);
    let observed = StartupReply::Observed(4);
    assert_eq!(Startup::begin(false).ask, STANDALONE);
    assert_eq!(booted(&[StartupReply::Claimed(false)]), STANDALONE);
    assert_eq!(booted(&[claimed, observed]), StartupAsk::PublishCached { observed: 4 });
    assert_eq!(booted(&[claimed, observed, PUBLISHED]), STANDALONE);
    assert_eq!(
        booted(&[claimed, observed, FALL_BACK]),
        StartupAsk::PublishStale { observed: 4 },
    );
    assert_eq!(booted(&[claimed, observed, FALL_BACK, PUBLISHED]), STANDALONE);
    let cold = [claimed, observed, FALL_BACK, FALL_BACK];
    assert_eq!(booted(&cold), StartupAsk::AskSemantic { observed: 4 });
    let plain = [claimed, observed, FALL_BACK, FALL_BACK, StartupReply::Semantic(false)];
    assert_eq!(booted(&plain), StartupAsk::AbortAndLoad);
    let fused = [claimed, observed, FALL_BACK, FALL_BACK, StartupReply::Semantic(true)];
    assert_eq!(booted(&fused), StartupAsk::FusedBuild { observed: 4 });
    let startup = Startup { ask: StartupAsk::FusedBuild { observed: 4 } };
    assert_eq!(
        startup.reply(StartupReply::Built(true)).ask,
        StartupAsk::Done(FusedStartup::Fused),
    );
    assert_eq!(startup.reply(StartupReply::Built(false)).ask, STANDALONE);
}

#[test]
fn a_boot_records_a_refused_attempt() {
    let claimed = StartupReply::Claimed(true);
    let observed = StartupReply::Observed(4);
    for refused in [vec![REFUSED], vec![FALL_BACK, REFUSED]] {
        let mut replies = vec![claimed, observed];
        replies.extend(refused);
        assert_eq!(booted(&replies), StartupAsk::RecordFailure);
        replies.push(StartupReply::Finished);
        assert_eq!(booted(&replies), STANDALONE);
    }
}
