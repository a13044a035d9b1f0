//! What an answer says of its own age, and what a status says of the graph.
//!
//! Each law speaks of whatever the operation answers, on the fields of the lifecycle, the snapshot
//! and the watch it was asked about.

use crate::freshness::{
    DriftWatch, Freshness, GraphStatusReport, HubHealth, ReportError, SnapshotMeta, Watch,
};
use crate::inner::Inner;
use crate::types::{GraphStatus, ReloadState, WatchPhase};
use vstd::prelude::*;

verus! {

/// The watch is seeing: a running watcher over a hub, whose poll, where a poll stands in for what
/// is not delivered, is on time.
pub open spec fn sees_disk(watch: Watch) -> bool {
    &&& watch.phase is Running
    &&& watch.hub matches Some(hub) && !(hub.poll_overdue && (hub.polling || hub.partially_blind))
}

/// The snapshot is of the build on record, and that build was sound and read everything.
pub open spec fn is_of_a_sound_build(inner: Inner, snapshot: SnapshotMeta) -> bool {
    &&& inner.published matches Some(published) && published.generation == snapshot.generation
        && !published.stale && !published.force_stale
    &&& !snapshot.force_stale
    &&& snapshot.unread_files == 0
}

/// An answer is stale exactly for a named cause. It is fresh where its revision is on record, that
/// build is neither a stale cache nor unsound, the snapshot left nothing unread, nothing is loading
/// or reloading, nothing is owed, and a watch sees disk; and it is fresh nowhere else.
pub proof fn law_an_answer_is_stale_only_for_a_cause(
    inner: &Inner,
    snapshot: &SnapshotMeta,
    owed: bool,
    watch: &Watch,
    freshness: Freshness,
)
    requires
        call_ensures(Inner::cached_freshness, (inner, snapshot, owed, watch), freshness),
    ensures
        !freshness.stale <==> {
            &&& is_of_a_sound_build(*inner, *snapshot)
            &&& !(inner.status is Loading)
            &&& !(inner.published matches Some(published) && published.reload is Running)
            &&& !owed
            &&& sees_disk(*watch)
        },
{
}

/// An answer names the revision it was read from, and the reload and the topology of the build on
/// record where that is the same revision; another revision's reload says nothing about it.
pub proof fn law_an_answer_speaks_of_its_own_revision(
    inner: &Inner,
    snapshot: &SnapshotMeta,
    owed: bool,
    watch: &Watch,
    freshness: Freshness,
)
    requires
        call_ensures(Inner::cached_freshness, (inner, snapshot, owed, watch), freshness),
    ensures
        freshness.revision == snapshot.generation,
        match inner.published {
            Some(published) if published.generation == snapshot.generation => {
                &&& freshness.topology == published.fingerprint.topology
                &&& freshness.reload@ == (match published.reload {
                    ReloadState::Idle => "none"@,
                    ReloadState::Running => "running"@,
                    ReloadState::Failed(_) => "failed"@,
                })
            },
            _ => freshness.topology == snapshot.fingerprint.topology && freshness.reload@ == "none"@,
        },
        names_the_watch(*watch, freshness.drift_watch),
{
}

/// The name of a watch: none where no watcher runs over a hub, starting before its first look is
/// complete, polling where a poll stands in for what is not delivered, and watching otherwise.
pub open spec fn names_the_watch(watch: Watch, named: DriftWatch) -> bool {
    &&& named is Starting <==> watch.phase is Starting
    &&& named is Polling <==> watch.phase is Running && (watch.hub matches Some(hub) && (
    hub.polling || hub.partially_blind))
    &&& named is Watching <==> watch.phase is Running && (watch.hub matches Some(hub)
        && !hub.polling && !hub.partially_blind)
    &&& named is Unobserved <==> watch.phase is Unwatched || watch.phase is Stopped || (watch.phase
        is Running && watch.hub is None)
}

/// Who watches is read off the phase and the hub, and a watch vouches for disk exactly where it
/// sees it.
pub proof fn law_a_watch_vouches_where_it_sees(watch: &Watch, named: DriftWatch, nothing: bool)
    requires
        call_ensures(Watch::drift_watch, (watch,), named),
        call_ensures(Watch::watch_vouches_for_nothing, (watch,), nothing),
    ensures
        names_the_watch(*watch, named),
        nothing <==> !sees_disk(*watch),
{
}

/// What every status says whatever the state: whether a newer daemon took over, who watches a graph
/// that has a workspace, and how long a poll takes.
pub proof fn law_every_status_says_who_watches(
    inner: &Inner,
    superseded: bool,
    has_root: bool,
    snapshot: Option<SnapshotMeta>,
    owed: bool,
    watch: &Watch,
    report: GraphStatusReport,
)
    requires
        call_ensures(
            Inner::status_report,
            (inner, superseded, has_root, snapshot, owed, watch),
            report,
        ),
    ensures
        report.superseded == (if superseded {
            Some(true)
        } else {
            None::<bool>
        }),
        has_root ==> (report.drift_watch matches Some(named) && names_the_watch(*watch, named)),
        !has_root ==> report.drift_watch is None,
        report.poll_cycle_secs == (match watch.hub {
            Some(HubHealth { poll_cycle_secs, .. }) => poll_cycle_secs,
            None => None,
        }),
{
}

/// A ready graph with a snapshot reports what it serves, superseded or not: its files, its
/// revision, what it could not read, and an age that is the very one its answers carry.
pub proof fn law_a_ready_status_agrees_with_its_answers(
    inner: &Inner,
    superseded: bool,
    has_root: bool,
    snapshot: SnapshotMeta,
    owed: bool,
    watch: &Watch,
    report: GraphStatusReport,
    freshness: Freshness,
)
    requires
        call_ensures(
            Inner::status_report,
            (inner, superseded, has_root, Some(snapshot), owed, watch),
            report,
        ),
        call_ensures(Inner::cached_freshness, (inner, &snapshot, owed, watch), freshness),
    ensures
        inner.status matches GraphStatus::Ready { files } ==> {
            &&& report.state@ == "ready"@
            &&& report.files == Some(files)
            &&& report.unread_files == Some(snapshot.unread_files)
            &&& report.revision == Some(snapshot.generation)
            &&& report.stale == Some(freshness.stale)
            &&& report.reload matches Some(reload) && reload@ == freshness.reload@
            &&& report.error is None
        },
{
}

/// A graph with nothing to serve reports no figures, and why: superseded over everything else, then
/// its own failure with its message, then that it is disabled, and otherwise that it loads.
pub proof fn law_a_status_without_a_graph_says_why(
    inner: &Inner,
    superseded: bool,
    has_root: bool,
    snapshot: Option<SnapshotMeta>,
    owed: bool,
    watch: &Watch,
    report: GraphStatusReport,
)
    requires
        call_ensures(
            Inner::status_report,
            (inner, superseded, has_root, snapshot, owed, watch),
            report,
        ),
        !(inner.status is Ready) || snapshot is None,
    ensures
        report.files is None && report.unread_files is None && report.revision is None,
        report.stale is None && report.reload is None,
        superseded ==> report.state@ == "failed"@ && report.error == Some(ReportError::Superseded),
        !superseded ==> match inner.status {
            GraphStatus::Disabled => report.state@ == "disabled"@ && report.error is None,
            GraphStatus::Failed(message) => report.state@ == "failed"@ && report.error == Some(
                ReportError::Failed(message),
            ),
            GraphStatus::Idle => report.state@ == "loading"@ && report.error is None,
            GraphStatus::Loading => report.state@ == "loading"@ && report.error is None,
            GraphStatus::Ready { .. } => report.state@ == "loading"@ && report.error is None,
        },
{
}

/// A copied status is the status, and a copied reload the reload.
pub proof fn law_a_copied_state_is_the_state(
    status: &GraphStatus,
    status_copy: GraphStatus,
    reload: &ReloadState,
    reload_copy: ReloadState,
)
    requires
        call_ensures(GraphStatus::clone, (status,), status_copy),
        call_ensures(ReloadState::clone, (reload,), reload_copy),
    ensures
        status_copy == *status,
        reload_copy == *reload,
{
}

/// The name a reload is reported under.
pub proof fn law_a_reload_has_a_name(state: &ReloadState, label: &'static str)
    requires
        call_ensures(ReloadState::label, (state,), label),
    ensures
        state is Idle ==> label@ == "none"@,
        state is Running ==> label@ == "running"@,
        state is Failed ==> label@ == "failed"@,
{
}

} // verus!
