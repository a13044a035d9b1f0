//! The published graph and the lifecycle around it.

use vstd::prelude::*;

verus! {

/// Where a workspace graph stands.
#[derive(Debug, PartialEq, Eq)]
pub enum GraphStatus {
    /// This profile has no graph.
    Disabled,
    /// Nothing has been built yet.
    Idle,
    /// The first build is running.
    Loading,
    /// A graph of this many files is published.
    Ready { files: usize },
    /// The first build failed.
    Failed(String),
}

impl Clone for GraphStatus {
    fn clone(&self) -> (copy: Self)
        ensures
            copy == *self,
    {
        match self {
            GraphStatus::Disabled => GraphStatus::Disabled,
            GraphStatus::Idle => GraphStatus::Idle,
            GraphStatus::Loading => GraphStatus::Loading,
            GraphStatus::Ready { files } => GraphStatus::Ready { files: *files },
            GraphStatus::Failed(message) => GraphStatus::Failed(message.clone()),
        }
    }
}

/// The fingerprint a build is compared with disk by.
#[derive(Clone, Copy, Debug, PartialEq, Eq, Structural)]
pub struct GraphFp {
    pub files: u64,
    pub topology: u64,
}

/// State of an in-flight or last-attempted background reload, surfaced to agents so a failed
/// reload is visible rather than leaving them behind for ever.
#[derive(Debug, PartialEq, Eq)]
pub enum ReloadState {
    /// No reload in flight; the published snapshot is the latest.
    Idle,
    /// A reload triggered by detected drift is running in the background.
    Running,
    /// The last reload failed; the previous snapshot is still served.
    Failed(String),
}

impl Clone for ReloadState {
    fn clone(&self) -> (copy: Self)
        ensures
            copy == *self,
    {
        match self {
            ReloadState::Idle => ReloadState::Idle,
            ReloadState::Running => ReloadState::Running,
            ReloadState::Failed(message) => ReloadState::Failed(message.clone()),
        }
    }
}

impl ReloadState {
    pub open spec fn name(self) -> Seq<char> {
        match self {
            ReloadState::Idle => "none"@,
            ReloadState::Running => "running"@,
            ReloadState::Failed(_) => "failed"@,
        }
    }

    /// The name an answer reports a reload under.
    pub fn label(&self) -> (label: &'static str)
        ensures
            label@ == self.name(),
    {
        match self {
            ReloadState::Idle => "none",
            ReloadState::Running => "running",
            ReloadState::Failed(_) => "failed",
        }
    }
}

/// The roots a search engine resolves files under, each spelled as the system spells it.
#[derive(Debug, PartialEq, Eq)]
pub struct WorkspaceRoots {
    pub roots: Vec<Vec<u8>>,
}

/// The published build's freshness metadata.
#[derive(Debug, PartialEq, Eq)]
pub struct Published {
    /// Whether this snapshot was published knowing it does not reflect current disk (a stale
    /// cache served at boot). No mark is ever consumed against it: it predates the marks'
    /// causes, even once the catch-up that was to replace it has failed.
    pub stale: bool,
    pub generation: u64,
    pub fingerprint: GraphFp,
    pub reload: ReloadState,
    /// The build straddled a disk write or was built over an incomplete scan, so it never was
    /// a faithful snapshot. A comparison of fingerprints alone cannot retire it: an incomplete
    /// scan leaves them equal.
    pub force_stale: bool,
    /// Search roots paired with this publication.
    pub search_roots: Option<WorkspaceRoots>,
    /// The position of the fact stream read before this publication's build scanned disk.
    /// `None` for a publication that scanned nothing, which therefore consumes no marks.
    pub observed_through: Option<u64>,
}

impl Published {
    /// Disk has moved past this build, or this build never was coherent and a clean scan can
    /// say so.
    pub open spec fn behind(self, disk: Option<(GraphFp, bool)>) -> bool {
        disk matches Some((fingerprint, scan_clean)) && (fingerprint != self.fingerprint || (
        self.force_stale && scan_clean))
    }

    /// Whether disk state warrants a fresh build: the tree moved past this build's fingerprint,
    /// or this build never was coherent and the current scan is clean. An unclean scan must not
    /// trigger the rebuild, or a chronically unreadable subtree would rebuild in a loop, each
    /// build unclean again. Recovery rebuilds exactly once.
    pub fn wants_reload(&self, disk: Option<(GraphFp, bool)>) -> (wanted: bool)
        ensures
            wanted == self.behind(disk),
    {
        match disk {
            Some((fingerprint, scan_clean)) => {
                fingerprint != self.fingerprint || (self.force_stale && scan_clean)
            },
            None => false,
        }
    }
}

/// What a publish hook is told.
#[derive(Clone, Copy, Debug)]
pub struct GraphPublishSignal<'a> {
    /// A fresher build is already on its way: a hint that this round may be skipped.
    pub drift_pending: bool,
    /// Marks above this bound must not be cleared.
    pub mark_bound: i64,
    pub topology_changed: bool,
    pub topology: u64,
    pub roots_refresh_requested: bool,
    pub workspace_roots: Option<&'a WorkspaceRoots>,
}

/// What a publish hook took of what it was offered.
#[derive(Clone, Copy, Debug, PartialEq, Eq, Structural)]
pub struct GraphPublishOutcome {
    pub topology_handled: bool,
    pub roots_handled: bool,
}

impl GraphPublishOutcome {
    /// Everything was taken: the answer of a graph without a hook.
    pub fn handled() -> (outcome: GraphPublishOutcome)
        ensures
            outcome == (GraphPublishOutcome { topology_handled: true, roots_handled: true }),
    {
        GraphPublishOutcome { topology_handled: true, roots_handled: true }
    }
}

/// Where the drift watcher is in its life.
#[derive(Clone, Copy, Debug, PartialEq, Eq, Structural)]
pub enum WatchPhase {
    /// No watcher was ever started for this graph.
    Unwatched,
    /// Started, but the first observation is not complete: nothing vouches for disk yet.
    Starting,
    /// Every change the hub delivers to the graph's cursor reaches the graph.
    Running,
    /// The watcher left, and nobody watches any more.
    Stopped,
}

} // verus!
