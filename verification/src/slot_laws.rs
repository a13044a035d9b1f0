//! What holds of the build slot over several of its transitions.

use crate::debt::{BuildKind, BuildTicket, Sponsors};
use crate::inner::{Inner, ReloadClaim};
use crate::types::{GraphFp, WorkspaceRoots};
use vstd::prelude::*;

verus! {

/// A carry that ends on its own leaves nothing behind: the ticket it held is no longer read, and
/// no carry is on record.
pub proof fn law_a_carry_ends_what_it_carried(inner: Inner, ticket: Option<BuildTicket>)
    requires
        inner.carries < u64::MAX,
    ensures
        ({
            let carried = inner.ticket_carried(ticket);
            carried.carry_ended(carried.carrier) == (Inner {
                building: None,
                carrier: 0,
                carries: carried.carries,
                ..inner
            })
        }),
{
}

/// The build that hands its work over does not end the mandate its successor carries. Whether
/// the successor has only taken the ticket or already carries it, the predecessor's own end
/// leaves the successor's state as it is.
pub proof fn law_a_handover_outlives_its_predecessor(inner: Inner, predecessor: u64)
    requires
        inner.admitted() is Some,
        0 < predecessor <= inner.carries < u64::MAX,
    ensures
        ({
            let paid = inner.admitted()->0;
            let taken = inner.handed_over(paid).ticket_taken();
            let carried = taken.ticket_carried(taken.building);
            &&& taken.building == Some(BuildTicket { kind: BuildKind::Reload, ..paid })
            &&& taken.carry_ended(predecessor) == taken
            &&& carried.carry_ended(predecessor) == carried
        }),
{
}

/// A hand-over carries the admission that was paid for: the same claim, the same sponsors and
/// the same cutoffs, and only the kind says that it is a catch-up now.
pub proof fn law_a_handover_is_the_same_admission(inner: Inner)
    requires
        inner.admitted() is Some,
    ensures
        ({
            let paid = inner.admitted()->0;
            &&& inner.handed_over(paid).claimed matches Some(handed)
            &&& handed.claim == paid.claim
            &&& handed.forced == paid.forced
            &&& handed.scan_cutoff == paid.scan_cutoff
            &&& handed.forced_through == paid.forced_through
            &&& handed.recovery_cutoff == paid.recovery_cutoff
            &&& handed.sponsors == paid.sponsors
            &&& handed.kind is Reload
            &&& inner.handed_over(paid).answering() == paid.sponsors
        }),
{
}

/// Exactly one builder reads a claim's mandate: once taken, the slot has none to give and the
/// one that was taken stays where it is.
pub proof fn law_a_claim_admits_one_builder(inner: Inner)
    ensures
        inner.ticket_taken().claimed is None,
        inner.ticket_taken().ticket_taken() == inner.ticket_taken(),
        inner.slot_taken() ==> inner.ticket_taken().slot_taken(),
{
}

/// A build that is under way is always named: the slot reads as taken from the admission, through
/// the builder taking its ticket, to the end of the carry.
pub proof fn law_a_build_under_way_is_always_named(inner: Inner, ticket: BuildTicket)
    requires
        inner.carries < u64::MAX,
    ensures
        ({
            let admitted = inner.first_build_admitted(ticket);
            let taken = admitted.ticket_taken();
            let carried = taken.ticket_carried(taken.building);
            &&& admitted.claimed == Some(ticket)
            &&& taken.building == Some(ticket)
            &&& carried.building == Some(ticket)
            &&& admitted.answering() == ticket.sponsors
            &&& taken.answering() == ticket.sponsors
            &&& carried.answering() == ticket.sponsors
        }),
{
}

/// A carry's identity is never reused: every transition keeps the identity on record among those
/// handed out, and the next carry's is above all of them.
pub proof fn law_carry_identities_grow(
    inner: Inner,
    ticket: Option<BuildTicket>,
    carrier: u64,
    claim: Option<u64>,
    paid: BuildTicket,
    message: String,
)
    requires
        inner.carrier <= inner.carries < u64::MAX,
    ensures
        inner.ticket_carried(ticket).carrier > inner.carries,
        inner.ticket_carried(ticket).carrier <= inner.ticket_carried(ticket).carries,
        ({
            let after = seq![
                inner.ticket_taken(),
                inner.carry_ended(carrier),
                inner.claim_released(claim),
                inner.handed_over(paid),
                inner.first_build_admitted(paid),
                inner.reload_granted(paid),
                inner.first_build_failed(message),
                inner.reload_failed(message),
                inner.reload_slot_released(),
                inner.failed_reload_cleared(),
                inner.external_build_aborted(),
            ];
            forall|i: int|
                0 <= i < after.len() ==> (#[trigger] after[i]).carries == inner.carries
                    && after[i].carrier <= inner.carries
        }),
{
}

/// A granted reload is single-flight: whatever is asked next while it stands is answered that it
/// runs, and no first build is admitted beside it on a ready graph.
pub proof fn law_a_granted_reload_is_single_flight(
    inner: Inner,
    ticket: BuildTicket,
    force: bool,
    disk: Option<(GraphFp, bool)>,
)
    requires
        inner.published is Some,
    ensures
        ({
            let granted = inner.reload_granted(ticket);
            &&& granted.reload_gate_spec(true, force, disk, false) == Err::<(), ReloadClaim>(
                ReloadClaim::Running,
            )
            &&& granted.drifting()
            &&& !granted.startable()
        }),
{
}

/// An admitted first build is single-flight: no loader and no external builder is admitted beside
/// it, however the question is asked.
pub proof fn law_an_admitted_first_build_is_single_flight(
    inner: Inner,
    ticket: BuildTicket,
    has_root: bool,
    lease: bool,
    stopped: bool,
)
    ensures
        ({
            let admitted = inner.first_build_admitted(ticket);
            &&& !admitted.admits_first_build(has_root, lease, stopped)
            &&& !admitted.admits_external_build(has_root, lease, stopped)
            &&& !admitted.startable()
            &&& admitted.drifting()
        }),
{
}

/// A claimed slot is never abandoned: a claim that is declined before a builder exists leaves the
/// slot free, nothing reads as in flight that did not before the claim, and a forced claim would
/// be let through again.
pub proof fn law_a_declined_claim_frees_the_slot(inner: Inner, ticket: BuildTicket)
    requires
        inner.published is Some,
        !inner.reloading(),
    ensures
        ({
            let released = inner.reload_granted(ticket).reload_slot_released();
            &&& released.claimed is None
            &&& !released.reloading()
            &&& released.drifting() == inner.drifting()
            &&& released.reload_gate_spec(true, true, None, false) == Ok::<(), ReloadClaim>(())
        }),
{
}

/// A grant whose builder could not be started is given back with the failure, so that the retry
/// the failure schedules can be claimed.
pub proof fn law_a_refused_start_gives_its_claim_back(
    inner: Inner,
    ticket: BuildTicket,
    message: String,
)
    requires
        inner.building is None,
    ensures
        inner.first_build_admitted(ticket).answering() == ticket.sponsors,
        inner.first_build_admitted(ticket).first_build_failed(message).startable(),
        inner.published is Some ==> {
            let failed = inner.reload_granted(ticket).reload_failed(message);
            &&& !failed.slot_taken()
            &&& !failed.reloading()
            &&& failed.published matches Some(published) && published.reload is Failed
        },
{
}

/// The outcome of a build answers for the ticket that build carried, and a claim that lands once
/// the lifecycle reads the build as over is left to its own outcome.
pub proof fn law_an_outcome_answers_for_its_own_ticket(
    inner: Inner,
    carried: BuildTicket,
    later: BuildTicket,
    message: String,
)
    requires
        inner.claimed is None,
        inner.building == Some(carried),
        inner.published is Some,
    ensures
        inner.answering() == carried.sponsors,
        inner.reload_failed(message).reload_granted(later).claimed == Some(later),
        inner.reload_failed(message).reload_granted(later).carry_ended(inner.carrier).claimed
            == Some(later),
{
}

/// A path gives back only the grant it names: any other claim in the slot survives.
pub proof fn law_a_claim_is_released_by_name(inner: Inner, claim: Option<u64>)
    ensures
        inner.claimed matches Some(ticket) ==> (inner.claim_released(claim).claimed == inner.claimed
            <==> claim != Some(ticket.claim)),
        inner.claim_released(claim).building == inner.building,
        inner.claim_released(None) == inner,
{
}

/// Abandoning an external build undoes its claim.
pub proof fn law_an_aborted_claim_is_undone(inner: Inner, ticket: BuildTicket)
    requires
        inner.status is Idle,
        inner.claimed is None,
    ensures
        inner.first_build_admitted(ticket).external_build_aborted() == inner,
{
}

/// A graph told to stop admits nothing, at any of its three admission points.
pub proof fn law_a_stopped_graph_admits_nothing(
    inner: Inner,
    has_root: bool,
    lease: bool,
    force: bool,
    disk: Option<(GraphFp, bool)>,
)
    ensures
        !inner.admits_first_build(has_root, lease, true),
        !inner.admits_external_build(has_root, lease, true),
        inner.reload_gate_spec(lease, force, disk, true) is Err,
{
}

/// A forced claim is never answered for want of drift on a published graph, and a comparison is
/// let through only for a difference.
pub proof fn law_only_drift_or_force_opens_the_gate(
    inner: Inner,
    force: bool,
    disk: Option<(GraphFp, bool)>,
    stopped: bool,
)
    ensures
        inner.reload_gate_spec(true, force, disk, stopped) is Ok ==> force || (
        inner.published matches Some(published) && published.behind(disk)),
        inner.published is Some && force ==> inner.reload_gate_spec(true, force, disk, stopped)
            != Err::<(), ReloadClaim>(ReloadClaim::NotOwed),
{
}

/// Marks are never charged against a stale cache, a straddled build, a build that left files
/// unread, or a graph that is not ready.
pub proof fn law_an_unsound_publication_consumes_nothing(inner: Inner, owes_recovery: bool)
    ensures
        inner.observed(owes_recovery) is Some ==> {
            &&& inner.status is Ready
            &&& !owes_recovery
            &&& inner.published matches Some(published)
            &&& !published.stale
            &&& !published.force_stale
            &&& published.observed_through == inner.observed(owes_recovery)
        },
{
}

/// An adopted database is served at once: marks are charged against it up to the observation it was
/// adopted under, no build is on its way because of it, and a comparison with the very fingerprint
/// it was built from asks for none.
pub proof fn law_an_adoption_is_caught_up(
    inner: Inner,
    generation: u64,
    fingerprint: GraphFp,
    files: usize,
    search_roots: Option<WorkspaceRoots>,
    observation: u64,
    scan_clean: bool,
)
    ensures
        ({
            let adopted = inner.adopted(generation, fingerprint, files, search_roots, observation);
            &&& adopted.observed(false) == Some(observation)
            &&& !adopted.drifting()
            &&& adopted.slot_taken() == inner.slot_taken()
            &&& adopted.reload_gate_spec(true, false, Some((fingerprint, scan_clean)), false)
                == Err::<(), ReloadClaim>(ReloadClaim::NotOwed)
        }),
{
}

/// Where nothing was admitted, an outcome reports under the primary account alone: no account
/// that did not pay is closed.
pub proof fn law_an_unadmitted_outcome_closes_no_marks(inner: Inner)
    ensures
        !inner.slot_taken() ==> inner.answering() == (Sponsors { primary: true, marks: false }),
{
}

} // verus!
