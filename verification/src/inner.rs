//! The published graph's mutable state: its status, its publication and the one build slot.
//!
//! Every transition of the slot is a method here, so that what a build is admitted for, what it
//! carries while it runs and what its outcome is reported against are one story.

use crate::debt::{BuildKind, BuildTicket, Facts, Sponsors};
use crate::types::{GraphFp, GraphStatus, Published, ReloadState, WorkspaceRoots};
use vstd::prelude::*;

verus! {

/// Everything mutable about the published graph.
#[derive(Debug, PartialEq, Eq)]
pub struct Inner {
    pub status: GraphStatus,
    pub published: Option<Published>,
    /// The ticket of the build holding the slot. Written with the grant and cleared with the
    /// outcome, so a slot that reads as taken always names what it was taken for.
    pub claimed: Option<BuildTicket>,
    /// The ticket the running builder carries, from the moment it takes the grant to the moment
    /// its work ends.
    pub building: Option<BuildTicket>,
    /// Which carry `building` belongs to: the hold that set it, or `0` while the ticket has been
    /// taken and no hold carries it yet. A hand-over puts the same admission in a second
    /// builder's hands before the first one has returned, so clearing the slot outright at the
    /// first one's exit would end the second one's mandate.
    pub carrier: u64,
    /// The last carry identity handed out.
    pub carries: u64,
}

/// A builder's hold on its own mandate. While it is alive, the ticket it carries is what every
/// outcome of that build reports against.
#[derive(Debug)]
pub struct CarriedTicket {
    carrier: u64,
}

impl CarriedTicket {
    #[verifier::type_invariant]
    spec fn inv(self) -> bool {
        self.carrier > 0
    }

    /// The identity of this carry.
    pub closed spec fn id(self) -> u64 {
        self.carrier
    }
}

/// Why a reload was, or was not, claimed.
#[derive(Clone, Copy, Debug, PartialEq, Eq, Structural)]
pub enum ReloadClaim {
    Claimed,
    /// Disk matches the published build and no project reload is outstanding.
    NotOwed,
    /// A difference was measured, and every account that could have paid for the attempt has
    /// run out. Nothing is answered by this: the debts stand, and only fresh work opens a
    /// budget that can act on them.
    Unsponsored,
    /// Owed, but not startable now: the lease could not be confirmed.
    Held,
    /// A reload is running; its own outcome settles what is owed.
    Running,
    /// The daemon has asked its owners to leave. Neither a refusal nor a failure: nothing is
    /// dropped, nothing is retried, and no debt is recorded.
    Stopping,
}

/// The mode a build is admitted in: forced by its caller, or by a fact or a recovery no comparison
/// can answer. Derived from the forced fact alone, a build forced for marks would fall back to an
/// ordinary one, which may answer with a cached graph.
pub open spec fn admission_mode(
    forced: bool,
    forced_fact: Option<u64>,
    owes_recovery: bool,
) -> bool {
    forced || forced_fact is Some || owes_recovery
}

/// The mandate of a build nothing was admitted for: it charges nothing, and the marks are not
/// attached.
pub open spec fn direct_ticket(
    claim: u64,
    kind: BuildKind,
    scan_cutoff: u64,
    forced_fact: Option<u64>,
    owes_recovery: bool,
    recovery_cutoff: u64,
) -> BuildTicket {
    BuildTicket {
        claim,
        kind,
        forced: admission_mode(false, forced_fact, owes_recovery),
        scan_cutoff,
        forced_through: forced_fact,
        recovery_cutoff,
        sponsors: Sponsors::primary_only(),
    }
}

/// The mandate of a build that reached the loader without an admission point of its own. No slot was
/// granted through the accounts, so inventing a charge would bill one that bought nothing.
pub fn mint_direct_ticket(
    claim: u64,
    is_reload: bool,
    scan_cutoff: u64,
    forced_fact: Option<u64>,
    owes_recovery: bool,
    recovery_cutoff: u64,
) -> (ticket: BuildTicket)
    ensures
        ticket == direct_ticket(
            claim,
            if is_reload {
                BuildKind::Reload
            } else {
                BuildKind::Initial
            },
            scan_cutoff,
            forced_fact,
            owes_recovery,
            recovery_cutoff,
        ),
{
    let kind = if is_reload {
        BuildKind::Reload
    } else {
        BuildKind::Initial
    };
    BuildTicket {
        claim,
        kind,
        forced: forced_fact.is_some() || owes_recovery,
        scan_cutoff,
        forced_through: forced_fact,
        recovery_cutoff,
        sponsors: Sponsors { primary: true, marks: false },
    }
}

/// The lifecycle's own reading of the facts, without the lease and the stop.
impl Inner {
    /// A published graph is being rebuilt.
    pub open spec fn reloading(self) -> bool {
        self.published matches Some(published) && published.reload is Running
    }

    /// A fresher build is on its way.
    pub open spec fn drifting(self) -> bool {
        self.status is Loading || self.reloading()
    }

    /// The slot is granted, or a builder has taken what was granted.
    pub open spec fn slot_taken(self) -> bool {
        self.claimed is Some || self.building is Some
    }

    /// A first build, or the retry of one, could be claimed.
    pub open spec fn startable(self) -> bool {
        (self.status is Idle || self.status is Failed) && !self.slot_taken()
    }

    pub open spec fn facts_under(self, terminal: bool, owns_now: bool, stopping: bool) -> Facts {
        Facts {
            ready: self.status is Ready,
            failed: self.status is Failed,
            idle: self.status is Idle,
            in_flight: self.drifting(),
            owns: !terminal && owns_now,
            terminal,
            stopping,
        }
    }

    /// A graph nothing has been built for.
    pub fn with_status(status: GraphStatus) -> (inner: Inner)
        ensures
            inner == (Inner {
                status,
                published: None,
                claimed: None,
                building: None,
                carrier: 0,
                carries: 0,
            }),
    {
        Inner { status, published: None, claimed: None, building: None, carrier: 0, carries: 0 }
    }

    /// A disabled graph (reference and shared profiles).
    pub fn disabled() -> (inner: Inner)
        ensures
            inner.status is Disabled,
            inner.published is None,
            !inner.slot_taken(),
            inner.carrier == 0 && inner.carries == 0,
    {
        Inner::with_status(GraphStatus::Disabled)
    }

    /// A workspace graph that loads lazily on first use.
    pub fn for_workspace() -> (inner: Inner)
        ensures
            inner.status is Idle,
            inner.published is None,
            !inner.slot_taken(),
            inner.carrier == 0 && inner.carries == 0,
    {
        Inner::with_status(GraphStatus::Idle)
    }

    pub fn status(&self) -> (status: GraphStatus)
        ensures
            status == self.status,
    {
        self.status.clone()
    }

    /// Whether nothing was ever built here: there is no build for the level of the fact stream to be
    /// measured against.
    pub fn waits_for_a_first_build(&self) -> (waits: bool)
        ensures
            waits == (self.status is Idle || self.status is Disabled),
    {
        matches!(self.status, GraphStatus::Idle | GraphStatus::Disabled)
    }

    /// Whether a published reload is running.
    pub fn reload_running(&self) -> (running: bool)
        ensures
            running == self.reloading(),
    {
        match &self.published {
            Some(published) => matches!(published.reload, ReloadState::Running),
            None => false,
        }
    }

    /// Whether a fresher build is already on its way: one is running, or one is loading. A hint
    /// for the publish hook, and what keeps a settled obligation from being owed twice.
    pub fn drift_pending(&self) -> (pending: bool)
        ensures
            pending == self.drifting(),
    {
        matches!(self.status, GraphStatus::Loading) || self.reload_running()
    }

    /// Whether a build holds this graph's slot right now: granted, or already taken by the
    /// builder carrying it.
    pub fn build_in_flight(&self) -> (taken: bool)
        ensures
            taken == self.slot_taken(),
    {
        self.claimed.is_some() || self.building.is_some()
    }

    /// The ticket currently granted.
    pub fn claimed_ticket(&self) -> (ticket: Option<BuildTicket>)
        ensures
            ticket == self.claimed,
    {
        self.claimed
    }

    /// Whether a first build, or the retry of one, could be claimed. Asked before anything that
    /// goes to disk: on a published graph no answer of the lease could change what follows.
    pub fn can_start(&self) -> (startable: bool)
        ensures
            startable == self.startable(),
    {
        matches!(self.status, GraphStatus::Idle | GraphStatus::Failed(_)) && !self.build_in_flight()
    }

    /// The graph's lifecycle as a decision reads it. Ownership counts only while the lease is
    /// not terminal, so `owns_now` need not be asked of one that is.
    pub fn facts(&self, terminal: bool, owns_now: bool, stopping: bool) -> (facts: Facts)
        ensures
            facts == self.facts_under(terminal, owns_now, stopping),
    {
        Facts {
            ready: matches!(self.status, GraphStatus::Ready { .. }),
            failed: matches!(self.status, GraphStatus::Failed(_)),
            idle: matches!(self.status, GraphStatus::Idle),
            in_flight: self.drift_pending(),
            owns: !terminal && owns_now,
            terminal,
            stopping,
        }
    }

    /// The lifecycle as it stands now, for a probe whose decision read `facts` a moment ago. A
    /// slot granted or taken in between counts as a build in flight, and the lease's half of the
    /// reading is carried over.
    pub fn live_facts(&self, facts: Facts, stopping: bool) -> (live: Facts)
        ensures
            live == (Facts {
                in_flight: self.drifting() || self.slot_taken(),
                owns: facts.owns,
                ..self.facts_under(facts.terminal, facts.owns, stopping)
            }),
    {
        Facts {
            ready: matches!(self.status, GraphStatus::Ready { .. }),
            failed: matches!(self.status, GraphStatus::Failed(_)),
            idle: matches!(self.status, GraphStatus::Idle),
            in_flight: self.drift_pending() || self.build_in_flight(),
            stopping,
            ..facts
        }
    }
}

/// The reload slot of a publication.
impl Inner {
    /// This graph with its publication's reload in another state.
    pub open spec fn with_reload(self, reload: ReloadState) -> Inner {
        Inner {
            published: match self.published {
                Some(published) => Some(Published { reload, ..published }),
                None => None,
            },
            ..self
        }
    }

    pub open spec fn failed_reload_cleared(self) -> Inner {
        if self.published matches Some(published) && published.reload is Failed {
            self.with_reload(ReloadState::Idle)
        } else {
            self
        }
    }

    pub open spec fn reload_slot_released(self) -> Inner {
        let unclaimed = Inner { claimed: None, ..self };
        if self.reloading() {
            unclaimed.with_reload(ReloadState::Idle)
        } else {
            unclaimed
        }
    }

    fn set_reload(&mut self, reload: ReloadState)
        ensures
            *final(self) == old(self).with_reload(reload),
    {
        match self.published.take() {
            Some(published) => {
                self.published = Some(Published { reload, ..published });
            },
            None => {},
        }
    }

    /// A comparison answered the failure: the publication on record already describes the disk.
    /// Left failed, the slot would report a failed catch-up for a graph that is perfectly
    /// current, and nothing is owed that would ever clear it.
    pub fn clear_failed_reload_slot(&mut self)
        ensures
            *final(self) == old(self).failed_reload_cleared(),
    {
        let failed = match &self.published {
            Some(published) => matches!(published.reload, ReloadState::Failed(_)),
            None => false,
        };
        if failed {
            self.set_reload(ReloadState::Idle);
        }
    }

    /// Hand back a reload slot this generation claimed and will not use. Only for a decline
    /// before any builder exists: a slot released while one runs would let a second start
    /// beside it. A released slot owns no mandate.
    pub fn release_reload_slot(&mut self)
        ensures
            *final(self) == old(self).reload_slot_released(),
    {
        self.claimed = None;
        if self.reload_running() {
            self.set_reload(ReloadState::Idle);
        }
    }
}

/// The ticket's way from the grant to the outcome.
impl Inner {
    /// The accounts an outcome reported now answers for: those of the grant no builder took,
    /// or of the ticket a builder carries, or the primary one where nothing was admitted.
    pub open spec fn answering(self) -> Sponsors {
        match (self.claimed, self.building) {
            (Some(ticket), _) => ticket.sponsors,
            (None, Some(ticket)) => ticket.sponsors,
            (None, None) => Sponsors::primary_only(),
        }
    }

    pub open spec fn ticket_taken(self) -> Inner {
        if self.claimed is Some {
            Inner { claimed: None, building: self.claimed, carrier: 0, ..self }
        } else {
            self
        }
    }

    pub open spec fn ticket_carried(self, ticket: Option<BuildTicket>) -> Inner {
        Inner {
            building: ticket,
            carrier: (self.carries + 1) as u64,
            carries: (self.carries + 1) as u64,
            ..self
        }
    }

    pub open spec fn carry_ended(self, carrier: u64) -> Inner {
        if self.carrier == carrier {
            Inner { building: None, carrier: 0, ..self }
        } else {
            self
        }
    }

    pub open spec fn claim_released(self, claim: Option<u64>) -> Inner {
        if self.claimed matches Some(ticket) && claim == Some(ticket.claim) {
            Inner { claimed: None, ..self }
        } else {
            self
        }
    }

    /// The admission a hand-over carries across: the grant still in the slot, or the ticket the
    /// builder handing over has already taken.
    pub open spec fn admitted(self) -> Option<BuildTicket> {
        if self.claimed is Some {
            self.claimed
        } else {
            self.building
        }
    }

    pub open spec fn handed_over(self, paid: BuildTicket) -> Inner {
        Inner { claimed: Some(BuildTicket { kind: BuildKind::Reload, ..paid }), ..self }
    }

    pub open spec fn first_build_failed(self, message: String) -> Inner {
        Inner { status: GraphStatus::Failed(message), claimed: None, ..self }
    }

    pub open spec fn reload_failed(self, message: String) -> Inner {
        Inner { claimed: None, ..self }.with_reload(ReloadState::Failed(message))
    }

    /// Take the ticket the admission granted: exactly one builder is admitted per claim, and
    /// exactly one reads its mandate. Taken out of the slot and carried in the same step, so
    /// there is no moment where the graph holds no ticket for a build that is under way.
    pub fn take_claimed_ticket(&mut self) -> (ticket: Option<BuildTicket>)
        ensures
            ticket == old(self).claimed,
            *final(self) == old(self).ticket_taken(),
    {
        let ticket = self.claimed.take();
        if ticket.is_some() {
            self.building = ticket;
            // Taken, and not yet carried: no earlier carry may let go of it.
            self.carrier = 0;
        }
        ticket
    }

    /// Carry `ticket` for as long as the builder runs. Given back by [`Inner::let_go`] at every
    /// exit of that work.
    pub fn carry_ticket(&mut self, ticket: Option<BuildTicket>) -> (held: CarriedTicket)
        requires
            old(self).carries < u64::MAX,
        ensures
            *final(self) == old(self).ticket_carried(ticket),
            held.id() == final(self).carrier,
    {
        self.carries = self.carries + 1;
        let carrier: u64 = self.carries;
        self.building = ticket;
        self.carrier = carrier;
        CarriedTicket { carrier }
    }

    /// End a carry. Only what this carry still holds: a successor that has taken the slot since
    /// carries a mandate of its own, however alike the tickets look.
    pub fn let_go(&mut self, held: CarriedTicket)
        ensures
            *final(self) == old(self).carry_ended(held.id()),
            held.id() > 0,
    {
        proof {
            use_type_invariant(&held);
        }
        if self.carrier == held.carrier {
            self.building = None;
            self.carrier = 0;
        }
    }

    /// Give back a grant no builder will take. Only the grant named: once the path's work is
    /// published another claim is legal, and the slot may by then hold somebody else's.
    pub fn release_unused_claim(&mut self, claim: Option<u64>)
        ensures
            *final(self) == old(self).claim_released(claim),
    {
        match (claim, self.claimed) {
            (Some(claim), Some(ticket)) => {
                if ticket.claim == claim {
                    self.claimed = None;
                }
            },
            _ => {},
        }
    }

    /// Issue a mandate for a build taking over a slot this generation already claimed.
    ///
    /// The slot was granted and paid for once, and the work is only moving to another thread:
    /// the admission is carried across unchanged but for its kind. Where no admission is
    /// anywhere, one that charges nothing is minted: `owed` is then asked which forced fact stands,
    /// whether a recovery is owed a build, for the recovery cutoff and for the claim's identity.
    pub fn issue_handover_ticket<F: FnOnce() -> (Option<u64>, bool, u64, u64)>(
        &mut self,
        scan_cutoff: u64,
        owed: F,
    )
        requires
            old(self).admitted() is None ==> owed.requires(()),
        ensures
            old(self).admitted() matches Some(paid) ==> *final(self) == old(self).handed_over(paid),
            old(self).admitted() is None ==> exists|
                forced_fact: Option<u64>,
                owes_recovery: bool,
                recovery_cutoff: u64,
                id: u64,
            | #[trigger]
                owed.ensures((), (forced_fact, owes_recovery, recovery_cutoff, id))
                    && *final(self) == (Inner {
                    claimed: Some(
                        direct_ticket(
                            id,
                            BuildKind::Reload,
                            scan_cutoff,
                            forced_fact,
                            owes_recovery,
                            recovery_cutoff,
                        ),
                    ),
                    ..*old(self)
                }),
    {
        let paid = match self.claimed {
            Some(ticket) => Some(ticket),
            None => self.building,
        };
        let ticket = match paid {
            Some(paid) => BuildTicket { kind: BuildKind::Reload, ..paid },
            None => {
                let (forced_fact, owes_recovery, recovery_cutoff, id) = owed();
                assert(owed.ensures((), (forced_fact, owes_recovery, recovery_cutoff, id)));
                mint_direct_ticket(
                    id,
                    true,
                    scan_cutoff,
                    forced_fact,
                    owes_recovery,
                    recovery_cutoff,
                )
            },
        };
        self.claimed = Some(ticket);
    }

    /// Settle how one admission ended: the accounts that answer for it, with the grant given
    /// back. A grant no builder took ends here with its outcome: left in the slot it reads as a
    /// build in flight, and the retry the failure schedules could never start.
    pub fn settle_admission(&mut self) -> (sponsors: Sponsors)
        ensures
            sponsors == old(self).answering(),
            *final(self) == (Inner { claimed: None, ..*old(self) }),
    {
        match self.claimed.take() {
            Some(ticket) => ticket.sponsors,
            None => match self.building {
                Some(ticket) => ticket.sponsors,
                None => Sponsors { primary: true, marks: false },
            },
        }
    }

    /// The first build failed, or could not start: the lifecycle and the admission end together.
    pub fn fail_first_build(&mut self, message: String) -> (sponsors: Sponsors)
        ensures
            sponsors == old(self).answering(),
            *final(self) == old(self).first_build_failed(message),
    {
        self.status = GraphStatus::Failed(message);
        self.settle_admission()
    }

    /// A reload failed, or could not start: its slot says so, so it is never left reading as
    /// running with no builder behind it.
    pub fn fail_reload(&mut self, message: String) -> (sponsors: Sponsors)
        ensures
            sponsors == old(self).answering(),
            *final(self) == old(self).reload_failed(message),
    {
        self.set_reload(ReloadState::Failed(message));
        self.settle_admission()
    }
}

/// The admission points.
impl Inner {
    pub open spec fn reload_gate_spec(
        self,
        owns: bool,
        force: bool,
        disk: Option<(GraphFp, bool)>,
        stopped: bool,
    ) -> Result<(), ReloadClaim> {
        if !owns {
            Err(ReloadClaim::Held)
        } else if stopped {
            Err(ReloadClaim::Stopping)
        } else if self.published is None {
            Err(ReloadClaim::NotOwed)
        } else if self.reloading() {
            Err(ReloadClaim::Running)
        } else if force || (self.published->0).behind(disk) {
            Ok(())
        } else {
            Err(ReloadClaim::NotOwed)
        }
    }

    /// The ticket a granted reload carries. A comparison's build answers no forced fact, however
    /// many are outstanding.
    pub open spec fn reload_ticket(
        claim: u64,
        force: bool,
        scan_cutoff: u64,
        forced_fact: Option<u64>,
        recovery_cutoff: u64,
        sponsors: Sponsors,
    ) -> BuildTicket {
        BuildTicket {
            claim,
            kind: BuildKind::Reload,
            forced: force,
            scan_cutoff,
            forced_through: if force {
                forced_fact
            } else {
                None
            },
            recovery_cutoff,
            sponsors,
        }
    }

    pub open spec fn reload_granted(self, ticket: BuildTicket) -> Inner {
        Inner { claimed: Some(ticket), ..self.with_reload(ReloadState::Running) }
    }

    pub open spec fn admits_first_build(self, has_root: bool, superseded: bool, stopped: bool) -> bool {
        has_root && !superseded && !stopped && (self.status is Idle || self.status is Failed)
    }

    pub open spec fn admits_external_build(self, has_root: bool, owns: bool, stopped: bool) -> bool {
        has_root && owns && !stopped && self.status is Idle
    }

    pub open spec fn first_build_admitted(self, ticket: BuildTicket) -> Inner {
        Inner { status: GraphStatus::Loading, claimed: Some(ticket), ..self }
    }

    /// Whether a claim on the single reload slot is worth charging for, and what it is answered
    /// where it is not. `force` says the caller's debt cannot be answered by a comparison, so
    /// the claim is owed whatever `disk` says.
    ///
    /// Says why and not just whether: a claim that cannot be made because the lease could not be
    /// confirmed is a debt still owed, while one that finds disk unchanged is a debt answered.
    fn reload_gate(
        &self,
        owns: bool,
        force: bool,
        disk: Option<(GraphFp, bool)>,
        stopped: bool,
    ) -> (gate: Result<(), ReloadClaim>)
        ensures
            gate == self.reload_gate_spec(owns, force, disk, stopped),
    {
        if !owns {
            return Err(ReloadClaim::Held);
        }
        if stopped {
            return Err(ReloadClaim::Stopping);
        }
        match &self.published {
            None => Err(ReloadClaim::NotOwed),
            Some(published) => {
                if matches!(published.reload, ReloadState::Running) {
                    Err(ReloadClaim::Running)
                } else if force || published.wants_reload(disk) {
                    Ok(())
                } else {
                    Err(ReloadClaim::NotOwed)
                }
            },
        }
    }

    /// Grant the reload slot for what the ledger charged: the second half of a claim whose gate
    /// let it through. The charge is part of the grant, and it can refuse — then the slot is
    /// left exactly as it was, the explanation of the last failure included. `capture` is asked
    /// for the recovery cutoff and the claim's identity only where an account paid.
    fn grant_reload<F: FnOnce() -> (u64, u64)>(
        &mut self,
        force: bool,
        scan_cutoff: u64,
        forced_fact: Option<u64>,
        sponsors: Sponsors,
        capture: F,
    ) -> (claim: ReloadClaim)
        requires
            old(self).published is Some,
            sponsors.paid() ==> capture.requires(()),
        ensures
            !sponsors.paid() ==> claim is Unsponsored && *final(self) == *old(self),
            sponsors.paid() ==> {
                &&& claim is Claimed
                &&& exists|recovery_cutoff: u64, id: u64| #[trigger]
                    capture.ensures((), (recovery_cutoff, id)) && *final(self)
                        == old(self).reload_granted(
                        Inner::reload_ticket(
                            id,
                            force,
                            scan_cutoff,
                            forced_fact,
                            recovery_cutoff,
                            sponsors,
                        ),
                    )
            },
    {
        if !sponsors.any() {
            return ReloadClaim::Unsponsored;
        }
        let (recovery_cutoff, id) = capture();
        self.set_reload(ReloadState::Running);
        let forced_through = if force {
            forced_fact
        } else {
            None
        };
        self.claimed = Some(
            BuildTicket {
                claim: id,
                kind: BuildKind::Reload,
                forced: force,
                scan_cutoff,
                forced_through,
                recovery_cutoff,
                sponsors,
            },
        );
        assert(capture.ensures((), (recovery_cutoff, id)));
        ReloadClaim::Claimed
    }

    /// Claim the single reload slot. `charge` is asked what a forced build has to answer and which
    /// accounts pay, once nothing refuses the claim; `capture` for the recovery cutoff
    /// and the claim's identity, once an account has paid. Both run in the hold that grants the
    /// slot, so a slot is never handed out without spending what paid for it.
    pub fn try_claim_reload<C: FnOnce() -> (Option<u64>, Sponsors), F: FnOnce() -> (u64, u64)>(
        &mut self,
        owns: bool,
        force: bool,
        disk: Option<(GraphFp, bool)>,
        stopped: bool,
        scan_cutoff: u64,
        charge: C,
        capture: F,
    ) -> (claim: ReloadClaim)
        requires
            old(self).reload_gate_spec(owns, force, disk, stopped) is Ok ==> charge.requires(()),
            old(self).reload_gate_spec(owns, force, disk, stopped) is Ok ==> forall|
                forced_fact: Option<u64>,
                sponsors: Sponsors,
            | #[trigger]
                charge.ensures((), (forced_fact, sponsors)) && sponsors.paid()
                    ==> capture.requires(()),
        ensures
            old(self).reload_gate_spec(owns, force, disk, stopped) matches Err(refusal) ==> claim
                == refusal && *final(self) == *old(self),
            old(self).reload_gate_spec(owns, force, disk, stopped) is Ok ==> {
                ||| claim is Unsponsored && *final(self) == *old(self) && exists|
                    forced_fact: Option<u64>,
                    sponsors: Sponsors,
                | #[trigger]
                    charge.ensures((), (forced_fact, sponsors)) && !sponsors.paid()
                ||| claim is Claimed && exists|
                    forced_fact: Option<u64>,
                    sponsors: Sponsors,
                    recovery_cutoff: u64,
                    id: u64,
                | #[trigger]
                    charge.ensures((), (forced_fact, sponsors)) && #[trigger] capture.ensures(
                        (),
                        (recovery_cutoff, id),
                    ) && sponsors.paid() && *final(self) == old(self).reload_granted(
                        Inner::reload_ticket(
                            id,
                            force,
                            scan_cutoff,
                            forced_fact,
                            recovery_cutoff,
                            sponsors,
                        ),
                    )
            },
    {
        match self.reload_gate(owns, force, disk, stopped) {
            Err(refusal) => refusal,
            Ok(()) => {
                let (forced_fact, sponsors) = charge();
                assert(charge.ensures((), (forced_fact, sponsors)));
                self.grant_reload(force, scan_cutoff, forced_fact, sponsors, capture)
            },
        }
    }

    /// What a first build admitted for this reading of the debts is granted.
    pub open spec fn first_build_ticket(
        claim: u64,
        forced: bool,
        scan_cutoff: u64,
        forced_fact: Option<u64>,
        owes_recovery: bool,
        recovery_cutoff: u64,
        sponsors: Sponsors,
    ) -> BuildTicket {
        BuildTicket {
            claim,
            kind: BuildKind::Initial,
            forced: admission_mode(forced, forced_fact, owes_recovery),
            scan_cutoff,
            forced_through: forced_fact,
            recovery_cutoff,
            sponsors,
        }
    }

    fn admit_first_build<D: FnOnce() -> (Option<u64>, bool), C: FnOnce(bool) -> (Sponsors, u64, u64)>(
        &mut self,
        forced: bool,
        scan_cutoff: u64,
        owed: D,
        charge: C,
    )
        requires
            owed.requires(()),
            forall|forced_fact: Option<u64>, owes_recovery: bool| #[trigger]
                owed.ensures((), (forced_fact, owes_recovery)) ==> charge.requires(
                    (admission_mode(forced, forced_fact, owes_recovery),),
                ),
        ensures
            exists|
                forced_fact: Option<u64>,
                owes_recovery: bool,
                sponsors: Sponsors,
                recovery_cutoff: u64,
                id: u64,
            | #[trigger]
                owed.ensures((), (forced_fact, owes_recovery)) && #[trigger] charge.ensures(
                    (admission_mode(forced, forced_fact, owes_recovery),),
                    (sponsors, recovery_cutoff, id),
                ) && *final(self) == old(self).first_build_admitted(
                    Inner::first_build_ticket(
                        id,
                        forced,
                        scan_cutoff,
                        forced_fact,
                        owes_recovery,
                        recovery_cutoff,
                        sponsors,
                    ),
                ),
    {
        let (forced_fact, owes_recovery) = owed();
        let mode = forced || forced_fact.is_some() || owes_recovery;
        let (sponsors, recovery_cutoff, claim) = charge(mode);
        self.status = GraphStatus::Loading;
        self.claimed = Some(
            BuildTicket {
                claim,
                kind: BuildKind::Initial,
                forced: mode,
                scan_cutoff,
                forced_through: forced_fact,
                recovery_cutoff,
                sponsors,
            },
        );
        assert(owed.ensures((), (forced_fact, owes_recovery)));
        assert(charge.ensures(
            (admission_mode(forced, forced_fact, owes_recovery),),
            (sponsors, recovery_cutoff, claim),
        ));
    }

    /// Claim the first build, or the retry of one, for a loader of this graph, and say whether
    /// this call claimed it. `owed` is asked which forced fact stands and whether a recovery is
    /// owed a build, `charge` for the accounts that pay in the resulting mode, the recovery
    /// cutoff and the claim's identity. Read under the lock that grants the slot, so a stop that
    /// lands before it is answered.
    pub fn ensure_loading_claimed<
        D: FnOnce() -> (Option<u64>, bool),
        C: FnOnce(bool) -> (Sponsors, u64, u64),
    >(
        &mut self,
        has_root: bool,
        superseded: bool,
        stopped: bool,
        forced: bool,
        scan_cutoff: u64,
        owed: D,
        charge: C,
    ) -> (claimed: bool)
        requires
            old(self).admits_first_build(has_root, superseded, stopped) ==> owed.requires(()),
            old(self).admits_first_build(has_root, superseded, stopped) ==> forall|
                forced_fact: Option<u64>,
                owes_recovery: bool,
            | #[trigger]
                owed.ensures((), (forced_fact, owes_recovery)) ==> charge.requires(
                    (admission_mode(forced, forced_fact, owes_recovery),),
                ),
        ensures
            claimed == old(self).admits_first_build(has_root, superseded, stopped),
            !claimed ==> *final(self) == *old(self),
            claimed ==> exists|
                forced_fact: Option<u64>,
                owes_recovery: bool,
                sponsors: Sponsors,
                recovery_cutoff: u64,
                id: u64,
            | #[trigger]
                owed.ensures((), (forced_fact, owes_recovery)) && #[trigger] charge.ensures(
                    (admission_mode(forced, forced_fact, owes_recovery),),
                    (sponsors, recovery_cutoff, id),
                ) && *final(self) == old(self).first_build_admitted(
                    Inner::first_build_ticket(
                        id,
                        forced,
                        scan_cutoff,
                        forced_fact,
                        owes_recovery,
                        recovery_cutoff,
                        sponsors,
                    ),
                ),
    {
        let admits = has_root && !superseded && !stopped && matches!(
            self.status,
            GraphStatus::Idle | GraphStatus::Failed(_)
        );
        if admits {
            self.admit_first_build(forced, scan_cutoff, owed, charge);
        }
        admits
    }

    /// Claim the first build for an external builder, which builds and installs the prepared graph
    /// itself. Only an idle graph yields it: one already loading, ready or failed is the normal
    /// lifecycle's.
    pub fn try_begin_external_build<
        D: FnOnce() -> (Option<u64>, bool),
        C: FnOnce(bool) -> (Sponsors, u64, u64),
    >(
        &mut self,
        has_root: bool,
        owns: bool,
        stopped: bool,
        scan_cutoff: u64,
        owed: D,
        charge: C,
    ) -> (claimed: bool)
        requires
            old(self).admits_external_build(has_root, owns, stopped) ==> owed.requires(()),
            old(self).admits_external_build(has_root, owns, stopped) ==> forall|
                forced_fact: Option<u64>,
                owes_recovery: bool,
            | #[trigger]
                owed.ensures((), (forced_fact, owes_recovery)) ==> charge.requires(
                    (admission_mode(false, forced_fact, owes_recovery),),
                ),
        ensures
            claimed == old(self).admits_external_build(has_root, owns, stopped),
            !claimed ==> *final(self) == *old(self),
            claimed ==> exists|
                forced_fact: Option<u64>,
                owes_recovery: bool,
                sponsors: Sponsors,
                recovery_cutoff: u64,
                id: u64,
            | #[trigger]
                owed.ensures((), (forced_fact, owes_recovery)) && #[trigger] charge.ensures(
                    (admission_mode(false, forced_fact, owes_recovery),),
                    (sponsors, recovery_cutoff, id),
                ) && *final(self) == old(self).first_build_admitted(
                    Inner::first_build_ticket(
                        id,
                        false,
                        scan_cutoff,
                        forced_fact,
                        owes_recovery,
                        recovery_cutoff,
                        sponsors,
                    ),
                ),
    {
        let admits = has_root && owns && !stopped && matches!(self.status, GraphStatus::Idle);
        if admits {
            self.admit_first_build(false, scan_cutoff, owed, charge);
        }
        admits
    }

    /// What follows the claim of a reload: say whether its builder is to be started. A generation
    /// that is leaving gives the slot back instead — a running slot with no builder behind it reads
    /// as a build in flight for ever — and records no failure.
    pub fn spawn_reload(&mut self, superseded: bool, stopped: bool) -> (start: bool)
        ensures
            start == (!superseded && !stopped),
            start ==> *final(self) == *old(self),
            !start ==> *final(self) == old(self).reload_slot_released(),
    {
        if superseded || stopped {
            self.release_reload_slot();
            return false;
        }
        true
    }

    /// The loader of a first build could not be started: the attempt happened, and it failed where
    /// it stands.
    pub fn loader_not_spawned(&mut self, error: &str) -> (sponsors: Sponsors)
        ensures
            sponsors == old(self).answering(),
            exists|message: String|
                message@ == "could not spawn loader: "@ + error@ && *final(self) == #[trigger] old(
                    self,
                ).first_build_failed(message),
    {
        let message = "could not spawn loader: ".to_owned().concat(error);
        self.fail_first_build(message)
    }

    /// The builder of a claimed reload could not be started.
    pub fn reload_not_spawned(&mut self, error: &str) -> (sponsors: Sponsors)
        ensures
            sponsors == old(self).answering(),
            exists|message: String|
                message@ == "could not spawn reload: "@ + error@ && *final(self) == #[trigger] old(
                    self,
                ).reload_failed(message),
    {
        let message = "could not spawn reload: ".to_owned().concat(error);
        self.fail_reload(message)
    }

    pub open spec fn external_build_aborted(self) -> Inner {
        if self.status is Loading {
            Inner { status: GraphStatus::Idle, claimed: None, ..self }
        } else {
            self
        }
    }

    /// Abandon a claimed external build that did not produce a usable database, so the normal
    /// path can rebuild.
    pub fn abort_external_build(&mut self)
        ensures
            *final(self) == old(self).external_build_aborted(),
    {
        if matches!(self.status, GraphStatus::Loading) {
            self.status = GraphStatus::Idle;
            self.claimed = None;
        }
    }

    /// This graph with a database somebody else built on record, as it was found: nothing is known
    /// against it, and it covers the fact stream up to where the stream stands.
    pub open spec fn adopted(
        self,
        generation: u64,
        fingerprint: GraphFp,
        files: usize,
        search_roots: Option<WorkspaceRoots>,
        observation: u64,
    ) -> Inner {
        Inner {
            status: GraphStatus::Ready { files },
            published: Some(
                Published {
                    generation,
                    fingerprint,
                    stale: false,
                    reload: ReloadState::Idle,
                    force_stale: false,
                    search_roots,
                    observed_through: Some(observation),
                },
            ),
            ..self
        }
    }

    /// Adopt a database somebody else built.
    pub fn adopt_prebuilt(
        &mut self,
        generation: u64,
        fingerprint: GraphFp,
        files: usize,
        search_roots: Option<WorkspaceRoots>,
        observation: u64,
    )
        ensures
            *final(self) == old(self).adopted(
                generation,
                fingerprint,
                files,
                search_roots,
                observation,
            ),
    {
        self.status = GraphStatus::Ready { files };
        self.published = Some(
            Published {
                generation,
                fingerprint,
                stale: false,
                reload: ReloadState::Idle,
                force_stale: false,
                search_roots,
                observed_through: Some(observation),
            },
        );
    }

    /// The observation marks may be charged against: that of a ready graph whose publication
    /// scanned disk and is neither a stale cache, nor a build that straddled a write, nor one
    /// that left files unread (the ledger then owes a recovery).
    pub open spec fn observed(self, owes_recovery: bool) -> Option<u64> {
        if self.status is Ready && !owes_recovery {
            match self.published {
                Some(published) if !published.stale && !published.force_stale => {
                    published.observed_through
                },
                _ => None,
            }
        } else {
            None
        }
    }

    /// The observation of the current publication, if marks may be consumed against it.
    pub fn consuming_observation(&self, owes_recovery: bool) -> (observed: Option<u64>)
        ensures
            observed == self.observed(owes_recovery),
    {
        if !matches!(self.status, GraphStatus::Ready { .. }) || owes_recovery {
            return None;
        }
        match &self.published {
            Some(published) => {
                if published.stale || published.force_stale {
                    None
                } else {
                    published.observed_through
                }
            },
            None => None,
        }
    }
}

} // verus!
