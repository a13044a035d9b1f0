use graph_state::admission::{
    ClaimAsk, ClaimReply, EnsureLoading, Kick, KickAsk, KickReply, LoadAsk, LoadReply,
    ReloadAttempt,
};
use graph_state::debt::{
    BuildKind, BuildStart, BuildTicket, Decision, Facts, HookDebt, Ripeness, Sponsors,
};
use graph_state::inner::{mint_direct_ticket, Inner, ReloadClaim};
use graph_state::intake::note_request;
use graph_state::signals::Signals;
use graph_state::types::{GraphFp, GraphStatus, Published, ReloadState, WatchPhase};

const PRIMARY: Sponsors = Sponsors { primary: true, marks: false };
const MARKS: Sponsors = Sponsors { primary: false, marks: true };
const NOBODY: Sponsors = Sponsors { primary: false, marks: false };
const DISK: GraphFp = GraphFp { files: 1, topology: 1 };

fn published(reload: ReloadState) -> Published {
    Published {
        generation: 1,
        fingerprint: GraphFp { files: 0, topology: 0 },
        stale: false,
        reload,
        force_stale: false,
        search_roots: None,
        observed_through: Some(0),
    }
}

fn ready(reload: ReloadState) -> Inner {
    let mut inner = Inner::with_status(GraphStatus::Ready { files: 0 });
    inner.published = Some(published(reload));
    inner
}

fn reload_of(inner: &Inner) -> Option<ReloadState> {
    inner.published.as_ref().map(|published| published.reload.clone())
}

/// A claim on the reload slot of a graph whose disk differs from what is published.
fn claim(inner: &mut Inner, force: bool, stopped: bool, pays: Sponsors, id: u64) -> ReloadClaim {
    let disk = if force { None } else { Some((DISK, true)) };
    inner.try_claim_reload(true, force, disk, stopped, 9, || (Some(7), pays), || (3, id))
}

fn load(inner: &mut Inner, forced: bool, forced_fact: Option<u64>, pays: Sponsors) -> bool {
    inner.ensure_loading_claimed(
        true,
        false,
        false,
        forced,
        9,
        || (forced_fact, false),
        |_mode| (pays, 3, 1),
    )
}

fn begin_external(inner: &mut Inner, owns: bool, stopped: bool) -> bool {
    inner.try_begin_external_build(true, owns, stopped, 9, || (None, false), |_mode| (MARKS, 3, 1))
}

fn owned(owns: bool) -> Facts {
    Facts {
        ready: false,
        failed: false,
        idle: true,
        in_flight: false,
        owns,
        terminal: false,
        stopping: false,
    }
}

fn decided(start: Option<BuildStart>) -> Decision {
    Decision {
        start,
        check: false,
        probe: false,
        flush_hook: HookDebt { topology: false, roots: false },
        wake_at: None,
    }
}

#[test]
fn drift_pending_reflects_recorded_nudge_and_running_reload() {
    let mut inner = ready(ReloadState::Idle);
    assert!(!inner.drift_pending(), "a clean published graph has no pending drift");

    inner.status = GraphStatus::Loading;
    assert!(inner.drift_pending(), "a build in flight is a pending drift");
    inner.status = GraphStatus::Ready { files: 0 };

    inner.published = Some(published(ReloadState::Running));
    assert!(inner.drift_pending(), "a running reload is a pending drift");
}

/// The first claim on a drifted published graph wins; a second one loses while the reload runs.
#[test]
fn claim_reload_slot_is_single_flight() {
    let mut inner = ready(ReloadState::Idle);
    assert_eq!(
        claim(&mut inner, false, false, PRIMARY, 1),
        ReloadClaim::Claimed,
        "the first claim wins on drift",
    );
    assert_eq!(
        claim(&mut inner, false, false, PRIMARY, 2),
        ReloadClaim::Running,
        "a second claim loses while a reload is Running",
    );
    assert_eq!(inner.claimed_ticket().map(|ticket| ticket.claim), Some(1));
}

/// A nudge arriving while a reload is already running schedules nothing.
#[test]
fn nudge_rebuild_absorbs_a_storm_while_a_reload_runs() {
    let mut inner = ready(ReloadState::Running);
    for _ in 0..16 {
        assert_eq!(claim(&mut inner, false, false, PRIMARY, 1), ReloadClaim::Running);
    }
    assert_eq!(inner.claimed_ticket(), None);
    assert_eq!(reload_of(&inner), Some(ReloadState::Running));
}

#[test]
fn a_claim_refused_for_want_of_a_sponsor_answers_nothing() {
    let failed = ReloadState::Failed("the last reload could not open the store".to_owned());
    let mut inner = ready(failed.clone());
    assert_eq!(claim(&mut inner, false, false, NOBODY, 1), ReloadClaim::Unsponsored);
    assert_eq!(
        reload_of(&inner),
        Some(failed),
        "the refused claim erased the last reload's own explanation",
    );
    assert!(!inner.build_in_flight());
}

#[test]
fn a_comparison_is_owed_only_for_a_difference() {
    let mut inner = ready(ReloadState::Idle);
    let same = Some((GraphFp { files: 0, topology: 0 }, true));
    let charged = || -> (Option<u64>, Sponsors) { unreachable!() };
    let captured = || -> (u64, u64) { unreachable!() };
    assert_eq!(
        inner.try_claim_reload(true, false, same, false, 9, charged, captured),
        ReloadClaim::NotOwed,
    );
    assert_eq!(
        inner.try_claim_reload(true, false, None, false, 9, charged, captured),
        ReloadClaim::NotOwed,
    );
    assert_eq!(
        inner.try_claim_reload(false, true, None, false, 9, charged, captured),
        ReloadClaim::Held,
    );
    let mut unpublished = Inner::for_workspace();
    assert_eq!(
        unpublished.try_claim_reload(true, true, None, false, 9, charged, captured),
        ReloadClaim::NotOwed,
    );
}

/// A build that never was coherent is rebuilt by a clean scan of the same tree, and by no other.
#[test]
fn an_incoherent_build_is_retired_by_a_clean_scan() {
    let mut straddled = published(ReloadState::Idle);
    straddled.force_stale = true;
    let same = GraphFp { files: 0, topology: 0 };
    assert!(straddled.wants_reload(Some((same, true))));
    assert!(!straddled.wants_reload(Some((same, false))));
    assert!(straddled.wants_reload(Some((DISK, false))));
    assert!(!straddled.wants_reload(None));
    straddled.force_stale = false;
    assert!(!straddled.wants_reload(Some((same, true))));
}

/// A comparison's build answers no forced fact, however many are outstanding.
#[test]
fn a_granted_reload_names_what_it_was_admitted_for() {
    let mut inner = ready(ReloadState::Idle);
    claim(&mut inner, false, false, PRIMARY, 5);
    assert_eq!(
        inner.claimed_ticket(),
        Some(BuildTicket {
            claim: 5,
            kind: BuildKind::Reload,
            forced: false,
            scan_cutoff: 9,
            forced_through: None,
            recovery_cutoff: 3,
            sponsors: PRIMARY,
        }),
    );
    let mut forced = ready(ReloadState::Idle);
    claim(&mut forced, true, false, MARKS, 6);
    let ticket = forced.claimed_ticket().unwrap();
    assert!(ticket.forced);
    assert_eq!(ticket.forced_through, Some(7));
    assert_eq!(ticket.sponsors, MARKS);
}

/// The mode the decision fixed reaches the ticket on the first build's path too.
#[test]
fn an_initial_claim_keeps_the_marks_sponsored_mode() {
    let mut inner = Inner::for_workspace();
    let mut asked_in = None;
    let granted = inner.ensure_loading_claimed(
        true,
        false,
        false,
        true,
        9,
        || (None, false),
        |mode| {
            asked_in = Some(mode);
            (MARKS, 3, 1)
        },
    );
    assert!(granted, "the claim must be granted");
    assert_eq!(asked_in, Some(true));
    let ticket = inner.claimed_ticket().expect("the admission issued a ticket");
    assert!(ticket.forced, "the Initial admission dropped the mode the decision fixed: {ticket:?}");
    assert!(ticket.sponsors.marks, "and it must name the lane that paid");
    assert_eq!(ticket.forced_through, None);
}

/// A recovery and a forced fact force a first build by themselves.
#[test]
fn what_no_comparison_can_answer_forces_a_first_build() {
    for (forced_fact, owes_recovery, forced) in
        [(None, false, false), (Some(4), false, true), (None, true, true)]
    {
        let mut inner = Inner::for_workspace();
        assert!(inner.ensure_loading_claimed(
            true,
            false,
            false,
            false,
            9,
            || (forced_fact, owes_recovery),
            |_mode| (PRIMARY, 3, 1),
        ));
        let ticket = inner.claimed_ticket().unwrap();
        assert_eq!(ticket.forced, forced);
        assert_eq!(ticket.forced_through, forced_fact);
        assert_eq!(ticket.kind, BuildKind::Initial);
        assert_eq!(inner.status(), GraphStatus::Loading);
    }
}

#[test]
fn a_superseded_daemon_builds_no_graph() {
    let mut inner = Inner::for_workspace();
    assert!(!begin_external(&mut inner, false, false), "a superseded graph refuses the fused claim");
    assert!(!inner.ensure_loading_claimed(
        true,
        true,
        false,
        false,
        9,
        || (None, false),
        |_mode| (PRIMARY, 3, 1),
    ));
    assert_eq!(inner.status(), GraphStatus::Idle, "no loader was started");
}

#[test]
fn an_already_started_graph_refuses_the_fused_build_claim() {
    let mut inner = Inner::for_workspace();
    assert!(load(&mut inner, false, None, PRIMARY));
    assert!(
        !begin_external(&mut inner, true, false),
        "a graph already building must refuse the fused claim, not build twice",
    );
}

#[test]
fn starting_a_claimed_graph_spawns_no_second_build() {
    let mut inner = Inner::for_workspace();
    assert!(begin_external(&mut inner, true, false), "an idle graph yields the claim");
    assert!(!load(&mut inner, false, None, PRIMARY));
    assert_eq!(EnsureLoading::begin(&inner).ask, LoadAsk::Done);
    assert_eq!(
        inner.status(),
        GraphStatus::Loading,
        "the external build keeps the claim; nothing else may drive it",
    );
}

#[test]
fn a_stopped_graph_admits_no_fused_cold_build() {
    let mut inner = Inner::for_workspace();
    assert!(begin_external(&mut inner, true, false), "the claim is available before the stop");
    inner.abort_external_build();
    assert_eq!(inner, Inner::for_workspace(), "an abandoned claim is undone");
    assert!(
        !begin_external(&mut inner, true, true),
        "the fused cold build was admitted after the daemon asked its owners to leave",
    );
    assert_eq!(inner.status(), GraphStatus::Idle, "and it must not have taken the slot");
}

#[test]
fn a_stop_during_the_claims_own_walk_is_refused_at_the_claim() {
    let mut inner = ready(ReloadState::Idle);
    assert_eq!(
        claim(&mut inner, true, true, PRIMARY, 1),
        ReloadClaim::Stopping,
        "the claim admitted a build after the daemon asked its owners to leave",
    );
    assert_eq!(
        reload_of(&inner),
        Some(ReloadState::Idle),
        "and it must not have taken the slot on the way to refusing",
    );
}

#[test]
fn a_claimed_slot_is_never_abandoned() {
    let mut inner = ready(ReloadState::Idle);
    assert_eq!(claim(&mut inner, true, false, PRIMARY, 1), ReloadClaim::Claimed);
    assert_eq!(
        reload_of(&inner),
        Some(ReloadState::Running),
        "the claim did not take the slot, so this test proves nothing",
    );
    assert!(!inner.spawn_reload(false, true));
    assert_eq!(
        reload_of(&inner),
        Some(ReloadState::Idle),
        "a declined spawn left the single-flight slot claimed by nobody",
    );
    assert!(
        !inner.facts(false, true, true).in_flight,
        "and the graph still reads as building",
    );
    assert!(!inner.build_in_flight());
}

#[test]
fn a_claimed_reload_is_started_where_nobody_is_leaving() {
    let mut inner = ready(ReloadState::Idle);
    claim(&mut inner, true, false, PRIMARY, 1);
    assert!(inner.spawn_reload(false, false));
    assert_eq!(reload_of(&inner), Some(ReloadState::Running));
    assert!(!inner.spawn_reload(true, false));
}

#[test]
fn a_handover_carries_the_ticket_the_claim_paid_for() {
    let mut inner = Inner::for_workspace();
    assert!(begin_external(&mut inner, true, false), "the boot takes the claim");
    let paid = inner.claimed_ticket().expect("the claim granted a mandate");

    inner.issue_handover_ticket(11, || unreachable!());
    let handover = inner.claimed_ticket().expect("the hand-over granted a mandate");
    assert_eq!(
        handover.sponsors, paid.sponsors,
        "the hand-over named sponsors that never paid for this build",
    );
    assert_eq!(
        handover.forced_through, paid.forced_through,
        "the hand-over adopted a demand admitted after the claim it continues",
    );
    assert_eq!(
        handover.scan_cutoff, paid.scan_cutoff,
        "the hand-over widened the cutoff its proof may cover",
    );
    assert_eq!(
        handover.recovery_cutoff, paid.recovery_cutoff,
        "the hand-over captured recovery origins the charge never covered",
    );
    assert_eq!(handover.kind, BuildKind::Reload, "the hand-over is a catch-up");
}

/// The builder has already taken its ticket out of the slot when it gets to the hand-over.
#[test]
fn a_lazy_catch_up_carries_the_ticket_its_admission_paid_for() {
    let mut inner = Inner::for_workspace();
    assert!(load(&mut inner, false, None, MARKS));
    let admitted = inner.take_claimed_ticket().expect("the first build was admitted");
    assert!(!admitted.forced && admitted.kind == BuildKind::Initial);
    let held = inner.carry_ticket(Some(admitted));

    inner.issue_handover_ticket(11, || unreachable!());
    let handed = inner.claimed_ticket().expect("the catch-up was handed a ticket");
    assert_eq!(handed.kind, BuildKind::Reload, "the hand-over is a catch-up");
    assert_eq!(
        handed.claim, admitted.claim,
        "the catch-up was handed a second, free admission instead of the one that was paid for",
    );
    assert_eq!(handed.sponsors, admitted.sponsors, "the catch-up named sponsors that never paid");
    assert_eq!(
        (handed.forced, handed.forced_through),
        (admitted.forced, admitted.forced_through),
        "the catch-up adopted a demand delivered after its admission",
    );
    assert_eq!(
        (handed.scan_cutoff, handed.recovery_cutoff),
        (admitted.scan_cutoff, admitted.recovery_cutoff),
        "the catch-up widened the cutoffs its admission fixed",
    );
    inner.let_go(held);
    assert_eq!(inner.claimed_ticket(), Some(handed));
}

#[test]
fn a_handover_nothing_was_granted_for_is_minted() {
    let mut inner = Inner::for_workspace();
    inner.issue_handover_ticket(9, || (Some(2), false, 3, 4));
    assert_eq!(
        inner.claimed_ticket(),
        Some(BuildTicket {
            claim: 4,
            kind: BuildKind::Reload,
            forced: true,
            scan_cutoff: 9,
            forced_through: Some(2),
            recovery_cutoff: 3,
            sponsors: PRIMARY,
        }),
    );
    let direct = mint_direct_ticket(5, false, 9, None, false, 3);
    assert_eq!(direct.kind, BuildKind::Initial);
    assert!(!direct.forced);
    assert!(mint_direct_ticket(6, false, 9, None, true, 3).forced);
}

#[test]
fn a_handover_does_not_end_the_mandate_its_successor_carries() {
    let mut inner = Inner::for_workspace();
    assert!(begin_external(&mut inner, true, false), "the admission this build runs on");
    let first = inner.take_claimed_ticket();
    let predecessor = inner.carry_ticket(first);
    inner.issue_handover_ticket(11, || unreachable!());
    // The successor takes the ticket at once, and the handing-over build returns afterwards.
    let handed = inner.take_claimed_ticket();
    let successor = inner.carry_ticket(handed);
    inner.let_go(predecessor);
    assert!(
        inner.build_in_flight(),
        "the build that handed the catch-up over ended the mandate its successor still carries",
    );
    inner.let_go(successor);
    assert!(!inner.build_in_flight());
}

/// A predecessor that lets go before the successor carries the ticket ends nothing either.
#[test]
fn a_ticket_taken_and_not_yet_carried_outlives_an_earlier_carry() {
    let mut inner = Inner::for_workspace();
    load(&mut inner, false, None, PRIMARY);
    let first = inner.take_claimed_ticket();
    let predecessor = inner.carry_ticket(first);
    inner.issue_handover_ticket(11, || unreachable!());
    inner.take_claimed_ticket();
    inner.let_go(predecessor);
    assert!(inner.build_in_flight());
    assert_eq!(inner.take_claimed_ticket(), None, "exactly one builder reads the mandate");
}

#[test]
fn a_failed_builds_outcome_answers_for_its_own_ticket_not_the_claim_after_it() {
    let mut inner = ready(ReloadState::Idle);
    assert_eq!(claim(&mut inner, true, false, MARKS, 1), ReloadClaim::Claimed);
    let ticket = inner.take_claimed_ticket();
    let held = inner.carry_ticket(ticket);
    // The transition and the sponsors are settled in one hold.
    let answering = inner.fail_reload("refused".to_owned());
    assert_eq!(answering, MARKS, "a build the marks alone paid for");
    // Another claim lands in the outcome's window, paid by another lane.
    assert_eq!(claim(&mut inner, true, false, PRIMARY, 2), ReloadClaim::Claimed);
    inner.let_go(held);
    assert_eq!(inner.claimed_ticket().map(|ticket| ticket.sponsors), Some(PRIMARY));
}

#[test]
fn a_refused_spawn_gives_its_claim_back() {
    let mut inner = Inner::for_workspace();
    assert!(load(&mut inner, false, None, PRIMARY));
    assert_eq!(inner.loader_not_spawned("refused by test"), PRIMARY);
    assert_eq!(
        inner.status(),
        GraphStatus::Failed("could not spawn loader: refused by test".to_owned()),
        "the spawn is refused",
    );
    assert!(!inner.build_in_flight(), "a refused first-build spawn left its grant in the slot");
    // The retry the failure schedules can be claimed.
    assert!(load(&mut inner, false, None, PRIMARY));
}

#[test]
fn a_refused_reload_spawn_gives_its_claim_back() {
    let mut inner = ready(ReloadState::Idle);
    assert_eq!(claim(&mut inner, true, false, PRIMARY, 1), ReloadClaim::Claimed, "the slot");
    assert_eq!(inner.reload_not_spawned("refused by test"), PRIMARY);
    assert_eq!(
        reload_of(&inner),
        Some(ReloadState::Failed("could not spawn reload: refused by test".to_owned())),
        "the reload spawn is refused",
    );
    assert!(!inner.build_in_flight(), "a refused reload spawn left its grant in the slot");
}

#[test]
fn a_warm_cache_publication_leaves_a_claim_that_landed_after_it() {
    let mut inner = ready(ReloadState::Idle);
    let own = Some(1);
    assert_eq!(claim(&mut inner, true, false, PRIMARY, 2), ReloadClaim::Claimed);
    inner.release_unused_claim(own);
    assert_eq!(
        inner.claimed_ticket().map(|ticket| ticket.claim),
        Some(2),
        "the warm cache path gave back a claim that was not its own",
    );
    inner.release_unused_claim(None);
    assert!(inner.build_in_flight());
    inner.release_unused_claim(Some(2));
    assert_eq!(inner.claimed_ticket(), None);
}

#[test]
fn an_unadmitted_outcome_reports_under_the_primary_account() {
    let mut inner = Inner::for_workspace();
    assert_eq!(inner.settle_admission(), PRIMARY);
    assert_eq!(inner.fail_first_build("broken".to_owned()), PRIMARY);
    assert_eq!(inner.status(), GraphStatus::Failed("broken".to_owned()));
}

#[test]
fn a_failure_whose_retry_finds_nothing_to_build_is_answered() {
    let mut inner = ready(ReloadState::Failed("transient".to_owned()));
    inner.clear_failed_reload_slot();
    assert_eq!(reload_of(&inner), Some(ReloadState::Idle));
    let mut running = ready(ReloadState::Running);
    running.clear_failed_reload_slot();
    assert_eq!(reload_of(&running), Some(ReloadState::Running));
}

#[test]
fn a_disabled_graph_starts_nothing() {
    let mut inner = Inner::disabled();
    assert!(!inner.can_start());
    assert!(!load(&mut inner, true, Some(1), PRIMARY));
    assert!(!begin_external(&mut inner, true, false));
    assert_eq!(EnsureLoading::begin(&inner).ask, LoadAsk::Done);
}

/// The entry under these answers; says what it asked for last.
fn entered(inner: &Inner, replies: &[LoadReply]) -> LoadAsk {
    let mut entry = EnsureLoading::begin(inner);
    for reply in replies {
        assert_ne!(entry.ask, LoadAsk::Done);
        entry = entry.reply(*reply);
    }
    entry.ask
}

#[test]
fn a_first_build_is_not_admitted_while_ownership_is_unconfirmed() {
    let inner = Inner::for_workspace();
    assert_eq!(entered(&inner, &[]), LoadAsk::ReadFacts);
    assert_eq!(
        entered(&inner, &[LoadReply::Facts(owned(false))]),
        LoadAsk::PutBack,
        "a first build was admitted while the lease could not confirm ownership",
    );
    // The obstacle ends, and the ask that was already made is answered.
    assert_eq!(
        entered(&inner, &[LoadReply::Facts(owned(true)), LoadReply::Decision(decided(None))]),
        LoadAsk::Claim { forced: false },
    );
}

#[test]
fn a_first_build_under_an_owned_lease_is_admitted_once() {
    let mut inner = Inner::for_workspace();
    let start = BuildStart { kind: BuildKind::Initial, forced: true };
    assert_eq!(
        entered(
            &inner,
            &[LoadReply::Facts(owned(true)), LoadReply::Decision(decided(Some(start)))],
        ),
        LoadAsk::Claim { forced: true },
    );
    assert!(load(&mut inner, true, None, MARKS));
    assert!(!load(&mut inner, true, None, MARKS), "one build for one ask");
}

#[test]
fn a_first_build_under_a_superseded_lease_is_not_admitted() {
    let inner = Inner::for_workspace();
    let lost = Facts { terminal: true, ..owned(false) };
    assert_eq!(entered(&inner, &[LoadReply::Facts(lost)]), LoadAsk::Done);
    let leaving = Facts { stopping: true, ..owned(false) };
    assert_eq!(entered(&inner, &[LoadReply::Facts(leaving)]), LoadAsk::Done);
}

#[test]
fn a_due_retry_is_not_admitted_while_ownership_is_unconfirmed() {
    let inner = Inner::with_status(GraphStatus::Failed("transient".to_owned()));
    assert_eq!(
        entered(
            &inner,
            &[LoadReply::Ripeness(Some(Ripeness::Now)), LoadReply::Facts(owned(false))],
        ),
        LoadAsk::PutBack,
        "a due retry was admitted while the lease could not confirm ownership",
    );
}

#[test]
fn the_boots_own_call_respects_a_spent_retry_budget() {
    let inner = Inner::with_status(GraphStatus::Failed("operation".to_owned()));
    for held in [None, Some(Ripeness::Exhausted), Some(Ripeness::At(12))] {
        assert_eq!(
            entered(&inner, &[LoadReply::Ripeness(held)]),
            LoadAsk::Done,
            "the boot restarted a build the schedule had stopped",
        );
    }
    // And fresh work revives it.
    assert_eq!(
        entered(&inner, &[LoadReply::Ripeness(Some(Ripeness::Now))]),
        LoadAsk::ReadFacts,
    );
}

#[test]
fn a_request_runs_a_retry_that_is_due_and_none_that_is_not() {
    let mut signals = Signals::new();
    let failed = Inner::with_status(GraphStatus::Failed("transient".to_owned()));
    assert!(signals.ensure_first_build(&failed));
    assert!(signals.take_first_build_ask());
    let due = Facts { failed: true, idle: false, ..owned(true) };
    assert_eq!(
        entered(
            &failed,
            &[
                LoadReply::Ripeness(Some(Ripeness::Now)),
                LoadReply::Facts(due),
                LoadReply::Decision(decided(None)),
            ],
        ),
        LoadAsk::Claim { forced: false },
    );
    assert_eq!(
        entered(&failed, &[LoadReply::Ripeness(Some(Ripeness::At(700)))]),
        LoadAsk::Done,
    );
}

#[test]
fn a_published_graph_is_answered_from_the_slot_alone() {
    let mut signals = Signals::new();
    let before = signals;
    assert!(!signals.ensure_first_build(&ready(ReloadState::Idle)));
    assert_eq!(signals, before);
    assert_eq!(EnsureLoading::begin(&ready(ReloadState::Idle)).ask, LoadAsk::Done);
}

/// A claim's readings, in the order that keeps one nobody needs from being made.
#[test]
fn a_claim_confirms_measures_and_reads_its_cutoff() {
    let disk = Some((DISK, true));
    let attempt = ReloadAttempt::begin(false).reply(ClaimReply::Owns(true));
    assert_eq!(attempt.ask, ClaimAsk::MeasureDisk);
    let attempt = attempt.reply(ClaimReply::Disk(disk));
    assert_eq!(attempt.ask, ClaimAsk::ReadCutoff { disk });
    let attempt = attempt.reply(ClaimReply::Cutoff(9));
    assert_eq!(attempt.ask, ClaimAsk::Grant { disk, scan_cutoff: 9 });
    let attempt = attempt.reply(ClaimReply::Granted(ReloadClaim::Running));
    assert_eq!(attempt.ask, ClaimAsk::Done(ReloadClaim::Running));

    let forced = ReloadAttempt::begin(true).reply(ClaimReply::Owns(true));
    assert_eq!(forced.ask, ClaimAsk::ReadCutoff { disk: None });
    let held = ReloadAttempt::begin(true).reply(ClaimReply::Owns(false));
    assert_eq!(held.ask, ClaimAsk::Done(ReloadClaim::Held));
}

/// The request asks again while the kick is letting go, and that kick carries the ask.
#[test]
fn an_ask_made_while_a_kick_lets_go_is_answered() {
    let failed = Inner::with_status(GraphStatus::Failed("held".to_owned()));
    let mut signals = Signals::new();
    assert!(signals.ensure_first_build(&failed));
    assert!(signals.begin_kick(false, WatchPhase::Unwatched));
    let kick = Kick::begin().reply(KickReply::Taken(signals.take_first_build_ask()));
    assert_eq!(kick.ask, KickAsk::EnsureLoading);
    let kick = kick.reply(KickReply::Finished);
    assert_eq!(kick.ask, KickAsk::Release);

    // The second ask finds the kick still taken, and starts no other.
    assert!(signals.ensure_first_build(&failed));
    assert!(!signals.begin_kick(false, WatchPhase::Unwatched));
    assert!(signals.first_build_kick);

    let kick = kick.reply(KickReply::Asked(signals.end_kick()));
    assert_eq!(kick.ask, KickAsk::ReadHold);
    let kick = kick.reply(KickReply::Held { until: None, now: 5 });
    assert_eq!(kick.ask, KickAsk::Resume);
    let kick = kick.reply(KickReply::Resumed(signals.begin_kick(false, WatchPhase::Unwatched)));
    assert_eq!(kick.ask, KickAsk::TakeAsk);
    let kick = kick.reply(KickReply::Taken(signals.take_first_build_ask()));
    assert_eq!(kick.ask, KickAsk::EnsureLoading);
    let kick = kick.reply(KickReply::Finished).reply(KickReply::Asked(signals.end_kick()));
    assert_eq!(kick.ask, KickAsk::Done);
}

#[test]
fn a_kick_waits_a_hold_out_and_never_spins() {
    let holding = Kick { ask: KickAsk::ReadHold };
    assert_eq!(
        holding.reply(KickReply::Held { until: Some(12), now: 5 }).ask,
        KickAsk::Sleep(7),
    );
    assert_eq!(holding.reply(KickReply::Held { until: Some(5), now: 12 }).ask, KickAsk::Sleep(0));
    let sleeping = Kick { ask: KickAsk::Sleep(7) };
    assert_eq!(sleeping.reply(KickReply::Slept { stopped: true }).ask, KickAsk::Done);
    assert_eq!(sleeping.reply(KickReply::Slept { stopped: false }).ask, KickAsk::Resume);
    let taken = Kick::begin().reply(KickReply::Taken(false));
    assert_eq!(taken.ask, KickAsk::Release);
    let resumed = Kick { ask: KickAsk::Resume }.reply(KickReply::Resumed(false));
    assert_eq!(resumed.ask, KickAsk::Done);
}

/// One short-lived kick carries a burst of asks, and none starts where a watcher runs.
#[test]
fn a_watcherless_graph_still_builds_from_the_asking() {
    let inner = Inner::for_workspace();
    let mut signals = Signals::new();
    let mut kicks = 0;
    for _ in 0..5 {
        assert!(signals.ensure_first_build(&inner));
        if signals.begin_kick(false, WatchPhase::Unwatched) {
            kicks += 1;
        }
    }
    assert!(kicks >= 1, "nothing carried the ask");
    assert!(kicks <= 1, "a burst of requests started a worker each: {kicks}");

    let mut watched = Signals::new();
    assert!(watched.ensure_first_build(&inner));
    assert!(!watched.begin_kick(false, WatchPhase::Running));
    assert!(!watched.begin_kick(true, WatchPhase::Unwatched));
    assert!(watched.first_build_asked);
}

#[test]
fn claims_are_never_reused() {
    let mut signals = Signals::new();
    let first = signals.next_claim_id();
    signals.wake_watcher();
    signals.latch_continuation();
    let second = signals.next_claim_id();
    assert_eq!((first, second), (1, 2));
}

/// Work handed over inside the sampling window is not slept through.
#[test]
fn a_latch_raised_inside_the_sampling_window_is_not_slept_through() {
    let mut signals = Signals::new();
    signals.take_continuation();
    // The hand-off lands between taking the latch and sampling the counter.
    signals.latch_continuation();
    let sampled = signals.alarms;
    assert!(signals.wait_is_over(sampled, false), "the owner slept over work handed to it");
    assert!(signals.continuation_pending());
    assert!(signals.take_continuation());
    // And a quiet graph is waited on.
    assert!(!signals.wait_is_over(sampled, false));
    assert!(signals.wait_is_over(sampled, true));
    signals.wake_watcher();
    assert!(signals.wait_is_over(sampled, false));
}

#[test]
fn an_ask_is_latched_and_put_back() {
    let mut signals = Signals::new();
    assert!(!signals.take_first_build_ask());
    assert!(signals.ensure_first_build(&Inner::for_workspace()));
    assert!(signals.continuation_pending());
    assert!(signals.take_first_build_ask());
    assert!(!signals.take_first_build_ask());
    signals.put_back_first_build_ask();
    assert!(signals.take_first_build_ask());
}

#[test]
fn a_reload_reports_under_its_name() {
    assert_eq!(ReloadState::Idle.label(), "none");
    assert_eq!(ReloadState::Running.label(), "running");
    assert_eq!(ReloadState::Failed("x".to_owned()).label(), "failed");
}

#[test]
fn the_facts_are_the_lifecycle_and_the_lease() {
    let facts = ready(ReloadState::Running).facts(false, true, false);
    assert!(facts.ready && facts.in_flight && facts.owns);
    let lost = Inner::for_workspace().facts(true, true, true);
    assert!(lost.idle && lost.terminal && lost.stopping);
    assert!(!lost.owns, "a terminal lease owns nothing");
    assert!(Inner::with_status(GraphStatus::Failed("x".to_owned())).facts(false, false, false).failed);
}

#[test]
fn a_loader_that_cannot_start_is_owed_a_retry() {
    let mut inner = Inner::for_workspace();
    assert!(load(&mut inner, false, None, PRIMARY));
    assert_eq!(inner.loader_not_spawned("refused by test"), PRIMARY);
    assert_eq!(
        inner.status(),
        GraphStatus::Failed("could not spawn loader: refused by test".to_owned()),
        "the spawn failure is a failure",
    );
    // Its retry is owned: the first attempt is immediate.
    let entry = EnsureLoading::begin(&inner);
    assert_eq!(entry.ask, LoadAsk::ReadRipeness);
    let entry = entry
        .reply(LoadReply::Ripeness(Some(Ripeness::Now)))
        .reply(LoadReply::Facts(Facts { idle: false, failed: true, ..owned(true) }))
        .reply(LoadReply::Decision(decided(None)));
    assert_eq!(entry.ask, LoadAsk::Claim { forced: false });
    assert!(load(&mut inner, false, None, PRIMARY));
    assert_eq!(inner.status(), GraphStatus::Loading);
}

#[test]
fn a_failed_build_closes_the_account_that_paid_for_it() {
    let mut inner = ready(ReloadState::Idle);
    assert_eq!(
        claim(&mut inner, true, false, MARKS, 1),
        ReloadClaim::Claimed,
        "the marks buy the slot",
    );
    let ticket = inner.take_claimed_ticket().expect("the admission granted a mandate");
    assert_eq!(ticket.sponsors, MARKS, "the fixture needs a build the marks alone paid for");
    let held = inner.carry_ticket(Some(ticket));
    // ...and the builder carrying it cannot finish.
    assert_eq!(
        inner.fail_reload("the builder could not finish".to_owned()),
        MARKS,
        "the operation closed some other account and left the marks buying attempts",
    );
    inner.let_go(held);
    assert!(!inner.build_in_flight());
    assert_eq!(
        reload_of(&inner),
        Some(ReloadState::Failed("the builder could not finish".to_owned())),
    );
}

#[test]
fn a_request_spends_neither_the_budget_nor_a_debt() {
    // A request that pulls nothing forward records nothing at all.
    assert!(note_request(false).is_empty());
    // And the door the request path goes through, on a graph that has failed: the build it could
    // start is the first one, never a retry the schedule is holding.
    let inner = Inner::with_status(GraphStatus::Failed("the last build failed".to_owned()));
    for held in [Some(Ripeness::Exhausted), Some(Ripeness::At(9)), None] {
        let entry = EnsureLoading::begin(&inner).reply(LoadReply::Ripeness(held));
        assert_eq!(entry.ask, LoadAsk::Done, "a request restarted a failed build");
    }
    let mut signals = Signals::new();
    assert!(!signals.ensure_first_build(&ready(ReloadState::Idle)), "a request started a build");
    assert_eq!(signals, Signals::new());
}

#[test]
fn superseded_graph_never_adopts_or_reloads() {
    let mut inner = Inner::for_workspace();
    assert!(!inner.spawn_reload(true, false));
    assert_eq!(inner.status(), GraphStatus::Idle);
    assert!(inner.published.is_none());
    assert_eq!(
        inner.try_claim_reload(false, false, None, false, 9, || unreachable!(), || unreachable!()),
        ReloadClaim::Held,
    );
}

#[test]
fn an_adoption_is_caught_up() {
    let mut inner = Inner::for_workspace();
    inner.adopt_prebuilt(3, DISK, 12, None, 8);
    assert_eq!(inner.status(), GraphStatus::Ready { files: 12 });
    assert_eq!(inner.consuming_observation(false), Some(8));
    assert_eq!(inner.consuming_observation(true), None);
    assert!(!inner.drift_pending());
    assert_eq!(
        inner.try_claim_reload(
            true,
            false,
            Some((DISK, true)),
            false,
            9,
            || unreachable!(),
            || unreachable!(),
        ),
        ReloadClaim::NotOwed,
    );
    assert_eq!(inner.published.as_ref().map(|published| published.generation), Some(3));
}

/// A kick is taken once, whatever is handed over while it is out.
#[test]
fn a_kick_is_single_flight() {
    let mut signals = Signals::new();
    assert!(signals.begin_kick(false, WatchPhase::Unwatched));
    signals.wake_watcher();
    assert!(signals.ensure_first_build(&Inner::for_workspace()));
    assert!(!signals.begin_kick(false, WatchPhase::Unwatched));
    assert!(signals.end_kick(), "an ask made while the kick was out was left without a carrier");
    assert!(signals.begin_kick(false, WatchPhase::Stopped));
    assert!(!Signals::new().begin_kick(true, WatchPhase::Unwatched));
    assert!(!Signals::new().begin_kick(false, WatchPhase::Running));
}

/// A slot given back before a builder exists owns no mandate and reads as free.
#[test]
fn a_released_slot_owns_no_mandate() {
    let mut inner = ready(ReloadState::Idle);
    claim(&mut inner, true, false, PRIMARY, 1);
    assert!(inner.reload_running());
    inner.release_reload_slot();
    assert!(!inner.reload_running() && !inner.build_in_flight());
    // A failed reload's own explanation is not what a release clears.
    let failed = ReloadState::Failed("kept".to_owned());
    let mut inner = ready(failed.clone());
    inner.release_reload_slot();
    assert_eq!(reload_of(&inner), Some(failed));
}

#[test]
fn only_an_idle_or_disabled_graph_waits_for_a_first_build() {
    assert!(Inner::for_workspace().waits_for_a_first_build());
    assert!(Inner::disabled().waits_for_a_first_build());
    for status in [
        GraphStatus::Loading,
        GraphStatus::Ready { files: 1 },
        GraphStatus::Failed("x".to_owned()),
    ] {
        assert!(!Inner::with_status(status).waits_for_a_first_build());
    }
}
