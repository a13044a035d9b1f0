//! What an answer says about how current it is, from process-local state alone.

use crate::inner::Inner;
use crate::types::{GraphFp, GraphStatus, Published, WatchPhase};
use vstd::prelude::*;

verus! {

/// Who watches a graph's drift, and how.
#[derive(Clone, Copy, Debug, PartialEq, Eq, Structural)]
pub enum DriftWatch {
    /// Nobody: nothing would notice the graph falling behind.
    Unobserved,
    /// A watcher that has not finished its first look.
    Starting,
    /// A watcher whose hub polls, or is blind in part.
    Polling,
    /// A watcher every change is delivered to.
    Watching,
}

/// How the change hub is doing.
#[derive(Clone, Copy, Debug, PartialEq, Eq, Structural)]
pub struct HubHealth {
    pub polling: bool,
    pub partially_blind: bool,
    pub poll_overdue: bool,
    /// The length of a polling cycle in seconds, where there is one.
    pub poll_cycle_secs: Option<u64>,
}

/// A graph's watch: the phase of its watcher and the health of its hub.
#[derive(Clone, Copy, Debug, PartialEq, Eq, Structural)]
pub struct Watch {
    pub phase: WatchPhase,
    pub hub: Option<HubHealth>,
}

impl Watch {
    pub open spec fn kind(self) -> DriftWatch {
        match self.phase {
            WatchPhase::Unwatched => DriftWatch::Unobserved,
            WatchPhase::Stopped => DriftWatch::Unobserved,
            WatchPhase::Starting => DriftWatch::Starting,
            WatchPhase::Running => match self.hub {
                Some(hub) => if hub.polling || hub.partially_blind {
                    DriftWatch::Polling
                } else {
                    DriftWatch::Watching
                },
                None => DriftWatch::Unobserved,
            },
        }
    }

    /// The watch cannot vouch for disk right now.
    pub open spec fn vouches_for_nothing(self) -> bool {
        match self.kind() {
            DriftWatch::Starting => true,
            DriftWatch::Unobserved => true,
            DriftWatch::Polling => self.hub matches Some(hub) && hub.poll_overdue,
            DriftWatch::Watching => false,
        }
    }

    /// Who watches this graph's drift, and how. A graph whose watcher never started or has left is
    /// unobserved.
    pub fn drift_watch(&self) -> (watch: DriftWatch)
        ensures
            watch == self.kind(),
    {
        match self.phase {
            WatchPhase::Unwatched | WatchPhase::Stopped => DriftWatch::Unobserved,
            WatchPhase::Starting => DriftWatch::Starting,
            WatchPhase::Running => match self.hub {
                Some(hub) => {
                    if hub.polling || hub.partially_blind {
                        DriftWatch::Polling
                    } else {
                        DriftWatch::Watching
                    }
                },
                None => DriftWatch::Unobserved,
            },
        }
    }

    /// Whether the watch cannot vouch for disk right now: it has not finished its first look, it
    /// has left, or the poll that stands in for it is overdue.
    pub fn watch_vouches_for_nothing(&self) -> (nothing: bool)
        ensures
            nothing == self.vouches_for_nothing(),
    {
        match self.drift_watch() {
            DriftWatch::Starting | DriftWatch::Unobserved => true,
            DriftWatch::Polling => match self.hub {
                Some(hub) => hub.poll_overdue,
                None => false,
            },
            DriftWatch::Watching => false,
        }
    }
}

/// What a reader's snapshot of the graph says of itself.
#[derive(Clone, Copy, Debug, PartialEq, Eq, Structural)]
pub struct SnapshotMeta {
    pub generation: u64,
    pub fingerprint: GraphFp,
    pub force_stale: bool,
    pub unread_files: usize,
}

/// How current an answer is.
#[derive(Clone, Copy, Debug, PartialEq, Eq)]
pub struct Freshness {
    pub revision: u64,
    pub stale: bool,
    /// The name of the publication's reload state.
    pub reload: &'static str,
    pub topology: u64,
    pub drift_watch: DriftWatch,
}

impl Inner {
    /// The publication a snapshot was taken of, where it is still the one on record.
    pub open spec fn publication_of(self, snapshot: SnapshotMeta) -> Option<Published> {
        match self.published {
            Some(published) if published.generation == snapshot.generation => Some(published),
            _ => None,
        }
    }

    /// An answer read from this snapshot may be behind. An obsolete revision is behind by
    /// construction; so is a build that could not vouch for itself, a catch-up that is owed or
    /// under way, and a graph whose watch cannot vouch for disk.
    pub open spec fn answer_is_stale(
        self,
        snapshot: SnapshotMeta,
        owed: bool,
        watch: Watch,
    ) -> bool {
        ||| match self.publication_of(snapshot) {
            Some(published) => published.stale || published.force_stale,
            None => true,
        }
        ||| snapshot.force_stale
        ||| snapshot.unread_files > 0
        ||| self.drifting()
        ||| owed
        ||| watch.vouches_for_nothing()
    }

    pub open spec fn reload_name(self, snapshot: SnapshotMeta) -> Seq<char> {
        match self.publication_of(snapshot) {
            Some(published) => published.reload.name(),
            None => "none"@,
        }
    }

    pub open spec fn topology_of(self, snapshot: SnapshotMeta) -> u64 {
        match self.publication_of(snapshot) {
            Some(published) => published.fingerprint.topology,
            None => snapshot.fingerprint.topology,
        }
    }

    /// Request-safe freshness of an answer read from `snapshot`. `owed` says that the ledger holds
    /// any debt of this graph.
    pub fn cached_freshness(&self, snapshot: &SnapshotMeta, owed: bool, watch: &Watch) -> (freshness:
        Freshness)
        ensures
            freshness.revision == snapshot.generation,
            freshness.stale == self.answer_is_stale(*snapshot, owed, *watch),
            freshness.reload@ == self.reload_name(*snapshot),
            freshness.topology == self.topology_of(*snapshot),
            freshness.drift_watch == watch.kind(),
    {
        let (behind, reload, topology) = match &self.published {
            Some(published) => {
                if published.generation == snapshot.generation {
                    (
                        published.stale || published.force_stale,
                        published.reload.label(),
                        published.fingerprint.topology,
                    )
                } else {
                    (true, "none", snapshot.fingerprint.topology)
                }
            },
            None => (true, "none", snapshot.fingerprint.topology),
        };
        let stale = behind || snapshot.force_stale || snapshot.unread_files > 0
            || self.drift_pending() || owed || watch.watch_vouches_for_nothing();
        Freshness {
            revision: snapshot.generation,
            stale,
            reload,
            topology,
            drift_watch: watch.drift_watch(),
        }
    }
}

/// Why a status reads as failed.
#[derive(Debug, PartialEq, Eq)]
pub enum ReportError {
    /// A newer daemon owns the workspace, and this one has nothing left to serve.
    Superseded,
    /// The build failed with this message.
    Failed(String),
}

/// The cached lifecycle snapshot a status answer carries.
#[derive(Debug, PartialEq, Eq)]
pub struct GraphStatusReport {
    pub state: &'static str,
    pub files: Option<usize>,
    pub unread_files: Option<usize>,
    pub revision: Option<u64>,
    pub stale: Option<bool>,
    pub reload: Option<&'static str>,
    pub error: Option<ReportError>,
    pub superseded: Option<bool>,
    pub drift_watch: Option<DriftWatch>,
    pub poll_cycle_secs: Option<u64>,
}

impl GraphStatusReport {
    /// The report carries the watch, the verdict on supersession and nothing else but its state.
    pub open spec fn bare(
        self,
        state: Seq<char>,
        superseded: Option<bool>,
        has_root: bool,
        watch: Watch,
    ) -> bool {
        &&& self.without_figures()
        &&& self.headed(state, superseded, has_root, watch)
        &&& self.error is None
    }

    pub open spec fn without_figures(self) -> bool {
        &&& self.files is None
        &&& self.unread_files is None
        &&& self.revision is None
        &&& self.stale is None
        &&& self.reload is None
    }

    pub open spec fn headed(
        self,
        state: Seq<char>,
        superseded: Option<bool>,
        has_root: bool,
        watch: Watch,
    ) -> bool {
        &&& self.state@ == state
        &&& self.superseded == superseded
        &&& self.drift_watch == (if has_root {
            Some(watch.kind())
        } else {
            None
        })
        &&& self.poll_cycle_secs == (match watch.hub {
            Some(hub) => hub.poll_cycle_secs,
            None => None,
        })
    }

    /// The report of a ready graph that has a snapshot to answer from.
    pub open spec fn serves(
        self,
        inner: Inner,
        files: usize,
        snapshot: SnapshotMeta,
        owed: bool,
        watch: Watch,
    ) -> bool {
        &&& self.files == Some(files)
        &&& self.unread_files == Some(snapshot.unread_files)
        &&& self.revision == Some(snapshot.generation)
        &&& self.stale == Some(inner.answer_is_stale(snapshot, owed, watch))
        &&& self.reload matches Some(reload) && reload@ == inner.reload_name(snapshot)
        &&& self.error is None
    }

    fn of(
        state: &'static str,
        superseded: Option<bool>,
        has_root: bool,
        watch: &Watch,
    ) -> (report: GraphStatusReport)
        ensures
            report.bare(state@, superseded, has_root, *watch),
    {
        let drift_watch = if has_root {
            Some(watch.drift_watch())
        } else {
            None
        };
        let poll_cycle_secs = match watch.hub {
            Some(hub) => hub.poll_cycle_secs,
            None => None,
        };
        GraphStatusReport {
            state,
            files: None,
            unread_files: None,
            revision: None,
            stale: None,
            reload: None,
            error: None,
            superseded,
            drift_watch,
            poll_cycle_secs,
        }
    }
}

impl Inner {
    /// What a status report says.
    pub open spec fn reports(
        self,
        superseded: bool,
        has_root: bool,
        snapshot: Option<SnapshotMeta>,
        owed: bool,
        watch: Watch,
        report: GraphStatusReport,
    ) -> bool {
        let verdict = if superseded {
            Some(true)
        } else {
            None
        };
        match (self.status, snapshot) {
            (GraphStatus::Ready { files }, Some(snapshot)) => {
                &&& report.headed("ready"@, verdict, has_root, watch)
                &&& report.serves(self, files, snapshot, owed, watch)
            },
            (status, _) => {
                if superseded {
                    &&& report.headed("failed"@, verdict, has_root, watch)
                    &&& report.without_figures()
                    &&& report.error == Some(ReportError::Superseded)
                } else {
                    match status {
                        GraphStatus::Disabled => report.bare("disabled"@, verdict, has_root, watch),
                        GraphStatus::Failed(message) => {
                            &&& report.headed("failed"@, verdict, has_root, watch)
                            &&& report.without_figures()
                            &&& report.error == Some(ReportError::Failed(message))
                        },
                        _ => report.bare("loading"@, verdict, has_root, watch),
                    }
                }
            },
        }
    }

    fn ready_report(
        &self,
        superseded: Option<bool>,
        has_root: bool,
        files: usize,
        snapshot: &SnapshotMeta,
        owed: bool,
        watch: &Watch,
    ) -> (report: GraphStatusReport)
        ensures
            report.headed("ready"@, superseded, has_root, *watch),
            report.serves(*self, files, *snapshot, owed, *watch),
    {
        let freshness = self.cached_freshness(snapshot, owed, watch);
        GraphStatusReport {
            files: Some(files),
            unread_files: Some(snapshot.unread_files),
            revision: Some(freshness.revision),
            stale: Some(freshness.stale),
            reload: Some(freshness.reload),
            ..GraphStatusReport::of("ready", superseded, has_root, watch)
        }
    }

    /// The cached lifecycle snapshot of the `status` action. `superseded` is the terminal verdict
    /// background work has already established, and `snapshot` the one an answer would be read
    /// from, if the pool has one.
    pub fn status_report(
        &self,
        superseded: bool,
        has_root: bool,
        snapshot: Option<SnapshotMeta>,
        owed: bool,
        watch: &Watch,
    ) -> (report: GraphStatusReport)
        ensures
            self.reports(superseded, has_root, snapshot, owed, *watch, report),
    {
        if superseded {
            if let GraphStatus::Ready { files } = &self.status {
                if let Some(snapshot) = &snapshot {
                    return self.ready_report(Some(true), has_root, *files, snapshot, owed, watch);
                }
            }
            return GraphStatusReport {
                error: Some(ReportError::Superseded),
                ..GraphStatusReport::of("failed", Some(true), has_root, watch)
            };
        }
        match &self.status {
            GraphStatus::Disabled => GraphStatusReport::of("disabled", None, has_root, watch),
            GraphStatus::Idle | GraphStatus::Loading => {
                GraphStatusReport::of("loading", None, has_root, watch)
            },
            GraphStatus::Failed(message) => GraphStatusReport {
                error: Some(ReportError::Failed(message.clone())),
                ..GraphStatusReport::of("failed", None, has_root, watch)
            },
            GraphStatus::Ready { files } => match &snapshot {
                Some(snapshot) => self.ready_report(None, has_root, *files, snapshot, owed, watch),
                None => GraphStatusReport::of("loading", None, has_root, watch),
            },
        }
    }
}

/// A fresh answer is one nothing known speaks against: its revision is the one on record, that
/// build was sound and read everything, no catch-up is owed or under way, and a watch vouches for
/// disk.
pub proof fn law_a_fresh_answer_is_known_current(
    inner: Inner,
    snapshot: SnapshotMeta,
    owed: bool,
    watch: Watch,
)
    requires
        !inner.answer_is_stale(snapshot, owed, watch),
    ensures
        inner.published matches Some(published) && published.generation == snapshot.generation
            && !published.stale && !published.force_stale && !(published.reload is Running),
        snapshot.unread_files == 0,
        !owed,
        !(inner.status is Loading),
        watch.phase is Running,
        watch.hub matches Some(hub) && (hub.poll_overdue ==> !hub.polling && !hub.partially_blind),
{
}

/// A snapshot whose revision was replaced while its request was in flight is reported as behind,
/// however coherent it was.
pub proof fn law_an_obsolete_revision_is_never_fresh(
    inner: Inner,
    snapshot: SnapshotMeta,
    owed: bool,
    watch: Watch,
)
    requires
        inner.published matches Some(published) ==> published.generation != snapshot.generation,
    ensures
        inner.answer_is_stale(snapshot, owed, watch),
        inner.topology_of(snapshot) == snapshot.fingerprint.topology,
{
}

/// Freshness rests on the watch: a graph nobody watches, and one whose watcher has not finished its
/// first look, is reported as behind.
pub proof fn law_an_unwatched_graph_is_never_fresh(
    inner: Inner,
    snapshot: SnapshotMeta,
    owed: bool,
    watch: Watch,
)
    requires
        !(watch.phase is Running),
    ensures
        inner.answer_is_stale(snapshot, owed, watch),
{
}

/// A superseded daemon says so in every status, and serves only a graph it had already published.
pub proof fn law_a_superseded_daemon_says_so(
    inner: Inner,
    has_root: bool,
    snapshot: Option<SnapshotMeta>,
    owed: bool,
    watch: Watch,
    report: GraphStatusReport,
)
    requires
        inner.reports(true, has_root, snapshot, owed, watch, report),
    ensures
        report.superseded == Some(true),
        inner.status is Ready && snapshot is Some ==> report.state@ == "ready"@ && report.error is None,
        !(inner.status is Ready && snapshot is Some) ==> report.state@ == "failed"@ && report.error
            == Some(ReportError::Superseded),
{
}

} // verus!
