use graph_state::bounded_wait::{
    load_failed_message, load_verdict, timed_out_message, wait_step, LoadVerdict, WaitStep,
    WAIT_CEILING, WAIT_POLL,
};
use graph_state::freshness::{
    DriftWatch, HubHealth, ReportError, SnapshotMeta, Watch,
};
use graph_state::inner::Inner;
use graph_state::summary::{graph_state_summary, Owed};
use graph_state::types::{GraphFp, GraphStatus, Published, ReloadState, WatchPhase};

const HEALTHY: HubHealth = HubHealth {
    polling: false,
    partially_blind: false,
    poll_overdue: false,
    poll_cycle_secs: None,
};
const WATCHING: Watch = Watch { phase: WatchPhase::Running, hub: Some(HEALTHY) };
const SNAPSHOT: SnapshotMeta = SnapshotMeta {
    generation: 7,
    fingerprint: GraphFp { files: 1, topology: 5 },
    force_stale: false,
    unread_files: 0,
};

fn published() -> Published {
    Published {
        generation: 7,
        fingerprint: GraphFp { files: 1, topology: 6 },
        stale: false,
        reload: ReloadState::Idle,
        force_stale: false,
        search_roots: None,
        observed_through: Some(0),
    }
}

fn ready() -> Inner {
    let mut inner = Inner::with_status(GraphStatus::Ready { files: 2 });
    inner.published = Some(published());
    inner
}

fn stale(inner: &Inner, snapshot: SnapshotMeta, owed: bool, watch: Watch) -> bool {
    inner.cached_freshness(&snapshot, owed, &watch).stale
}

#[test]
fn freshness_rests_on_the_drift_watch() {
    let graph = ready();
    let unwatched = Watch { phase: WatchPhase::Unwatched, hub: Some(HEALTHY) };
    assert_eq!(unwatched.drift_watch(), DriftWatch::Unobserved);
    assert!(stale(&graph, SNAPSHOT, false, unwatched), "an unwatched graph called fresh");

    let freshness = graph.cached_freshness(&SNAPSHOT, false, &WATCHING);
    assert_eq!(freshness.drift_watch, DriftWatch::Watching);
    assert!(!freshness.stale, "a watched, current graph reported stale");
    assert_eq!(freshness.revision, 7);
    assert_eq!(freshness.topology, 6);
    assert_eq!(freshness.reload, "none");
    assert_eq!(
        graph.status_report(false, true, Some(SNAPSHOT), false, &WATCHING).drift_watch,
        Some(DriftWatch::Watching),
    );

    let starting = Watch { phase: WatchPhase::Starting, ..WATCHING };
    assert!(stale(&graph, SNAPSHOT, false, starting), "a graph still starting called fresh");
    let left = Watch { phase: WatchPhase::Stopped, ..WATCHING };
    assert_eq!(left.drift_watch(), DriftWatch::Unobserved);
    assert!(stale(&graph, SNAPSHOT, false, left), "an abandoned graph called fresh");
    let hubless = Watch { hub: None, ..WATCHING };
    assert_eq!(hubless.drift_watch(), DriftWatch::Unobserved);
}

#[test]
fn a_poll_vouches_until_it_is_overdue() {
    for (polling, partially_blind) in [(true, false), (false, true)] {
        let hub = HubHealth { polling, partially_blind, ..HEALTHY };
        let watch = Watch { hub: Some(hub), ..WATCHING };
        assert_eq!(watch.drift_watch(), DriftWatch::Polling);
        assert!(!watch.watch_vouches_for_nothing());
        let overdue = Watch { hub: Some(HubHealth { poll_overdue: true, ..hub }), ..WATCHING };
        assert!(overdue.watch_vouches_for_nothing());
        assert!(stale(&ready(), SNAPSHOT, false, overdue));
    }
}

#[test]
fn a_snapshot_from_a_replaced_revision_is_never_fresh() {
    let mut graph = ready();
    assert!(!stale(&graph, SNAPSHOT, false, WATCHING), "a current snapshot is fresh");
    let mut newer = published();
    newer.generation += 1;
    newer.reload = ReloadState::Running;
    graph.published = Some(newer);
    let freshness = graph.cached_freshness(&SNAPSHOT, false, &WATCHING);
    assert!(freshness.stale, "an obsolete revision was reported as current");
    assert_eq!((freshness.reload, freshness.topology), ("none", 5));
}

#[test]
fn a_pending_rebuild_is_not_reported_as_fresh() {
    let graph = ready();
    let report = graph.status_report(false, true, Some(SNAPSHOT), false, &WATCHING);
    assert_eq!(report.stale, Some(false), "a fresh build is not stale");
    let report = graph.status_report(false, true, Some(SNAPSHOT), true, &WATCHING);
    assert_eq!(report.stale, Some(true), "a graph with a catch-up owed reports itself fresh");
}

/// Marks owed a build make the graph behind by construction, even with nothing else amiss.
#[test]
fn owed_marks_make_the_graph_stale() {
    assert!(!stale(&ready(), SNAPSHOT, false, WATCHING));
    assert!(stale(&ready(), SNAPSHOT, true, WATCHING), "owed marks reported fresh");
}

#[test]
fn every_known_cause_makes_an_answer_stale() {
    let mut graph = ready();
    assert!(stale(&graph, SnapshotMeta { force_stale: true, ..SNAPSHOT }, false, WATCHING));
    assert!(stale(&graph, SnapshotMeta { unread_files: 1, ..SNAPSHOT }, false, WATCHING));
    graph.published = Some(Published { stale: true, ..published() });
    assert!(stale(&graph, SNAPSHOT, false, WATCHING));
    graph.published = Some(Published { force_stale: true, ..published() });
    assert!(stale(&graph, SNAPSHOT, false, WATCHING));
    graph.published = Some(Published { reload: ReloadState::Running, ..published() });
    assert!(stale(&graph, SNAPSHOT, false, WATCHING));
    graph.published = Some(published());
    graph.status = GraphStatus::Loading;
    assert!(stale(&graph, SNAPSHOT, false, WATCHING));
}

#[test]
fn superseded_status_truth_table() {
    for lifecycle in [
        GraphStatus::Idle,
        GraphStatus::Loading,
        GraphStatus::Failed("original failure".to_owned()),
        GraphStatus::Ready { files: 2 },
    ] {
        let mut graph = ready();
        graph.status = lifecycle.clone();
        let report = graph.status_report(true, true, None, false, &WATCHING);
        assert_eq!(report.state, "failed", "{lifecycle:?}");
        assert_eq!(report.superseded, Some(true), "{lifecycle:?}");
        assert_eq!(report.error, Some(ReportError::Superseded), "{lifecycle:?}");
        assert_eq!(report.files, None);
    }
    let graph = ready();
    let returned = graph.status_report(true, true, Some(SNAPSHOT), false, &WATCHING);
    assert_eq!(returned.state, "ready");
    assert_eq!(returned.superseded, Some(true));
    assert_eq!(returned.revision, Some(7));
    assert_eq!(returned.error, None);

    let report = graph.status_report(false, true, Some(SNAPSHOT), false, &WATCHING);
    assert_eq!(report.state, "ready");
    assert_eq!(report.superseded, None);
}

#[test]
fn a_status_says_where_the_graph_stands() {
    for (status, state) in [
        (GraphStatus::Disabled, "disabled"),
        (GraphStatus::Idle, "loading"),
        (GraphStatus::Loading, "loading"),
        (GraphStatus::Ready { files: 2 }, "loading"),
    ] {
        let report = Inner::with_status(status).status_report(false, false, None, false, &WATCHING);
        assert_eq!(report.state, state);
        assert_eq!(report.error, None);
        assert_eq!(report.drift_watch, None, "a graph without a workspace has no watch");
    }
    let failed = Inner::with_status(GraphStatus::Failed("broken".to_owned()));
    let polling = HubHealth { polling: true, poll_cycle_secs: Some(12), ..HEALTHY };
    let watch = Watch { hub: Some(polling), ..WATCHING };
    let report = failed.status_report(false, true, None, false, &watch);
    assert_eq!(report.state, "failed");
    assert_eq!(report.error, Some(ReportError::Failed("broken".to_owned())));
    assert_eq!(report.poll_cycle_secs, Some(12));
    assert_eq!(report.drift_watch, Some(DriftWatch::Polling));

    let snapshot = SnapshotMeta { unread_files: 3, ..SNAPSHOT };
    let report = ready().status_report(false, true, Some(snapshot), false, &WATCHING);
    assert_eq!((report.files, report.unread_files), (Some(2), Some(3)));
    assert_eq!((report.stale, report.reload), (Some(true), Some("none")));
}

/// A wait that exhausts its ceiling hands the reader the state it observed.
#[test]
fn a_wait_that_times_out_reports_the_state_it_observed() {
    let mut inner = Inner::disabled();
    inner.status = GraphStatus::Ready { files: 4 };
    inner.published = Some(Published { force_stale: true, ..published() });
    let owed =
        Owed { change: None, forced: Some(3), failed: false, marks: false, recovery: false };
    assert_eq!(wait_step(false, 0, 0), WaitStep::TimedOut, "a wait that never holds must fail");
    let summary = graph_state_summary(&inner, &owed);
    assert_eq!(
        summary,
        "status Ready { files: 4 }; published: generation 7, reload none, stale false, \
         force_stale true; owed: change None, forced Some(3), failed false, marks false, \
         recovery false",
    );
    let reported = timed_out_message("0ns", "a condition that never holds", &summary);
    for named in [
        "a condition that never holds",
        "Ready",
        "generation 7",
        "reload none",
        "force_stale true",
        "forced Some(3)",
    ] {
        assert!(reported.contains(named), "{named} is missing from {reported}");
    }
    assert!(reported.starts_with("timed out after 0ns waiting for a condition"));
}

#[test]
fn a_bounded_wait_ends() {
    assert_eq!(wait_step(true, 9, 3), WaitStep::Met, "a condition that holds is never late");
    assert_eq!(wait_step(false, 2, 3), WaitStep::Sleep(WAIT_POLL));
    assert_eq!(wait_step(false, 3, 3), WaitStep::TimedOut);
    assert_eq!((WAIT_POLL, WAIT_CEILING), (10_000_000, 30_000_000_000));
    assert_eq!(load_verdict(&ready()), LoadVerdict::Ready);
    assert_eq!(load_verdict(&Inner::for_workspace()), LoadVerdict::Pending);
    let failed = Inner::with_status(GraphStatus::Failed("broken".to_owned()));
    assert_eq!(load_verdict(&failed), LoadVerdict::Failed);
    assert_eq!(load_failed_message("broken", "status"), "graph load failed: broken; status");
}

#[test]
fn a_summary_spells_every_status() {
    let owed =
        Owed { change: Some(1204), forced: None, failed: true, marks: true, recovery: false };
    for status in [
        GraphStatus::Disabled,
        GraphStatus::Idle,
        GraphStatus::Loading,
        GraphStatus::Ready { files: 120 },
        GraphStatus::Failed("a \"quoted\" \\ line\n".to_owned()),
    ] {
        let expected = format!(
            "status {status:?}; published: none; owed: change {:?}, forced {:?}, failed {}, \
             marks {}, recovery {}",
            owed.change, owed.forced, owed.failed, owed.marks, owed.recovery,
        );
        assert_eq!(graph_state_summary(&Inner::with_status(status), &owed), expected);
    }
}
