//! What the graph's decisions exchange with the ledger of what it owes.
//!
//! The ledger itself keeps the schedules and the budgets. What crosses its boundary is plain:
//! the facts a decision is taken from, the decision, and the mandate a build is admitted with.

use vstd::prelude::*;

verus! {

/// The graph's lifecycle as a decision reads it.
#[derive(Clone, Copy, Debug, PartialEq, Eq, Structural)]
pub struct Facts {
    pub ready: bool,
    pub failed: bool,
    pub idle: bool,
    /// A build is loading, or a published graph is reloading.
    pub in_flight: bool,
    /// Ownership of the workspace's caches was confirmed for this reading.
    pub owns: bool,
    /// The workspace is lost for good, or was handed back.
    pub terminal: bool,
    /// The daemon has asked its owners to leave.
    pub stopping: bool,
}

#[derive(Clone, Copy, Debug, PartialEq, Eq, Structural)]
pub enum BuildKind {
    /// The first build of a graph, or the retry of one that never published.
    Initial,
    /// A rebuild of a published graph.
    Reload,
}

/// The build a decision asks for.
#[derive(Clone, Copy, Debug, PartialEq, Eq, Structural)]
pub struct BuildStart {
    pub kind: BuildKind,
    /// No comparison with disk can answer this one.
    pub forced: bool,
}

/// The refreshes a publish hook has not taken yet: two independent obligations.
#[derive(Clone, Copy, Debug, PartialEq, Eq, Structural)]
pub struct HookDebt {
    pub topology: bool,
    pub roots: bool,
}

impl HookDebt {
    pub open spec fn owed(self) -> bool {
        self.topology || self.roots
    }

    /// Whether anything is owed.
    pub fn any(&self) -> (owed: bool)
        ensures
            owed == self.owed(),
    {
        self.topology || self.roots
    }
}

/// What the ledger would have done right now. Moments are nanoseconds of the process's own
/// monotonic clock.
#[derive(Clone, Copy, Debug, PartialEq, Eq, Structural)]
pub struct Decision {
    pub start: Option<BuildStart>,
    pub check: bool,
    pub probe: bool,
    pub flush_hook: HookDebt,
    pub wake_at: Option<u64>,
}

/// The accounts that paid for an admission.
#[derive(Clone, Copy, Debug, PartialEq, Eq, Structural)]
pub struct Sponsors {
    pub primary: bool,
    pub marks: bool,
}

impl Sponsors {
    pub open spec fn paid(self) -> bool {
        self.primary || self.marks
    }

    /// The account a build reports under when no admission names one.
    pub open spec fn primary_only() -> Sponsors {
        Sponsors { primary: true, marks: false }
    }

    /// Whether any account paid.
    pub fn any(&self) -> (paid: bool)
        ensures
            paid == self.paid(),
    {
        self.primary || self.marks
    }
}

/// The mandate one admission grants. A build answers for its ticket and for nothing that was
/// delivered after the ticket was issued.
#[derive(Clone, Copy, Debug, PartialEq, Eq, Structural)]
pub struct BuildTicket {
    /// The identity of the admission.
    pub claim: u64,
    pub kind: BuildKind,
    pub forced: bool,
    /// The position of the fact stream the build's proof may cover.
    pub scan_cutoff: u64,
    /// The last forced fact the build was admitted for.
    pub forced_through: Option<u64>,
    /// The last measured recovery the build was admitted for.
    pub recovery_cutoff: u64,
    pub sponsors: Sponsors,
}

/// What one debt says about its own turn.
#[derive(Clone, Copy, Debug, PartialEq, Eq, Structural)]
pub enum Ripeness {
    /// The executor's turn.
    Now,
    /// Held off until a moment.
    At(u64),
    /// Its account has run out, and only fresh work revives it.
    Exhausted,
}

/// What the schedule made of a probe.
#[derive(Clone, Copy, Debug, PartialEq, Eq, Structural)]
pub enum ProbeResult {
    NewEvidence,
    NoNewEvidence,
    /// The publication the probe measured against is gone, or its owner may no longer act.
    Obsolete,
    CouldNotLook,
}

} // verus!
