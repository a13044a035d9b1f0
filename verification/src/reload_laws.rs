//! What the graph's slot is for, said of its operations as they are called.
//!
//! Each law speaks of whatever an operation answers and leaves behind, on the fields of what it was
//! given: when disk wants a reload, who is granted a build, what the grant says, and what is left of
//! it when it ends.

use crate::debt::{BuildKind, BuildTicket, Facts, Sponsors};
use crate::inner::{mint_direct_ticket, CarriedTicket, Inner, ReloadClaim};
use crate::types::{GraphFp, GraphStatus, Published, ReloadState, WorkspaceRoots};
use vstd::prelude::*;

verus! {

/// Two publications that differ in nothing but how their reload stands.
pub open spec fn differ_only_in_reload(a: Published, b: Published) -> bool {
    &&& a.stale == b.stale
    &&& a.generation == b.generation
    &&& a.fingerprint.files == b.fingerprint.files
    &&& a.fingerprint.topology == b.fingerprint.topology
    &&& a.force_stale == b.force_stale
    &&& a.search_roots == b.search_roots
    &&& a.observed_through == b.observed_through
}

/// Two graphs whose slots hold the same tickets for the same builders.
pub open spec fn same_slot(a: Inner, b: Inner) -> bool {
    &&& a.claimed == b.claimed
    &&& same_builder(a, b)
}

/// Two graphs whose running builder is the same.
pub open spec fn same_builder(a: Inner, b: Inner) -> bool {
    &&& a.building == b.building
    &&& a.carrier == b.carrier
    &&& a.carries == b.carries
}

/// A scan whose fingerprint differs from the published one in either component wants a reload; one
/// that finds the same tree wants it exactly where the published build never was coherent and the
/// scan is clean; and where disk could not be measured nothing is wanted.
pub proof fn law_a_tree_that_moved_wants_a_reload(
    published: &Published,
    fingerprint: GraphFp,
    clean: bool,
    on_a_scan: bool,
    on_none: bool,
)
    requires
        call_ensures(Published::wants_reload, (published, Some((fingerprint, clean))), on_a_scan),
        call_ensures(Published::wants_reload, (published, None), on_none),
    ensures
        fingerprint.files != published.fingerprint.files ==> on_a_scan,
        fingerprint.topology != published.fingerprint.topology ==> on_a_scan,
        fingerprint.files == published.fingerprint.files && fingerprint.topology
            == published.fingerprint.topology ==> on_a_scan == (published.force_stale && clean),
        !on_none,
{
}

/// What a scan of disk says against a publication.
pub open spec fn disk_moved(published: Published, disk: Option<(GraphFp, bool)>) -> bool {
    match disk {
        Some((fingerprint, clean)) => {
            ||| fingerprint.files != published.fingerprint.files
            ||| fingerprint.topology != published.fingerprint.topology
            ||| (published.force_stale && clean)
        },
        None => false,
    }
}

/// A claim on the reload slot is refused for its own reason and leaves everything as it was, or it
/// comes to the charge: that decides, on a published graph that owns its caches, is not stopping and
/// is not reloading, for a debt no comparison answers or a tree that moved.
pub proof fn law_a_reload_is_refused_only_for_its_reasons<
    C: FnOnce() -> (Option<u64>, Sponsors),
    F: FnOnce() -> (u64, u64),
>(
    inner: &mut Inner,
    owns: bool,
    force: bool,
    disk: Option<(GraphFp, bool)>,
    stopped: bool,
    scan_cutoff: u64,
    charge: C,
    capture: F,
    claim: ReloadClaim,
)
    requires
        call_ensures(
            Inner::try_claim_reload::<C, F>,
            (inner, owns, force, disk, stopped, scan_cutoff, charge, capture),
            claim,
        ),
    ensures
        claim is Held <==> !owns,
        claim is Stopping <==> owns && stopped,
        claim is Running <==> owns && !stopped && (old(inner).published matches Some(published)
            && published.reload is Running),
        claim is NotOwed <==> owns && !stopped && (match old(inner).published {
            Some(published) => !(published.reload is Running) && !force && !disk_moved(
                published,
                disk,
            ),
            None => true,
        }),
        !(claim is Claimed) ==> *final(inner) == *old(inner),
        claim is Claimed || claim is Unsponsored <==> owns && !stopped && (old(inner).published matches Some(published) && !(published.reload is Running) && (force || disk_moved(
            published,
            disk,
        ))),
{
}

/// A reload that came to the charge is granted exactly where an account pays. The grant marks the
/// publication on record as reloading and changes nothing else of it; the ticket names the claim
/// and the cutoff, and answers a forced fact only where the reload is a forced one.
pub proof fn law_a_granted_reload_says_what_it_is_for<
    C: FnOnce() -> (Option<u64>, Sponsors),
    F: FnOnce() -> (u64, u64),
>(
    inner: &mut Inner,
    owns: bool,
    force: bool,
    disk: Option<(GraphFp, bool)>,
    stopped: bool,
    scan_cutoff: u64,
    charge: C,
    capture: F,
    claim: ReloadClaim,
)
    requires
        call_ensures(
            Inner::try_claim_reload::<C, F>,
            (inner, owns, force, disk, stopped, scan_cutoff, charge, capture),
            claim,
        ),
    ensures
        claim is Unsponsored ==> exists|forced_fact: Option<u64>, sponsors: Sponsors| #[trigger]
            charge.ensures((), (forced_fact, sponsors)) && !sponsors.primary && !sponsors.marks,
        claim is Claimed ==> {
            &&& final(inner).status == old(inner).status
            &&& same_builder(*final(inner), *old(inner))
            &&& old(inner).published matches Some(before)
            &&& final(inner).published matches Some(after)
            &&& after.reload is Running
            &&& differ_only_in_reload(before, after)
            &&& final(inner).claimed matches Some(ticket)
            &&& ticket.kind is Reload
            &&& ticket.forced == force
            &&& ticket.scan_cutoff == scan_cutoff
            &&& !force ==> ticket.forced_through is None
            &&& ticket.sponsors.primary || ticket.sponsors.marks
            &&& capture.ensures((), (ticket.recovery_cutoff, ticket.claim))
            &&& exists|forced_fact: Option<u64>| #[trigger]
                charge.ensures((), (forced_fact, ticket.sponsors)) && (force
                    ==> ticket.forced_through == forced_fact)
        },
{
    if claim is Claimed {
        let (forced_fact, sponsors, recovery_cutoff, id) = choose|
            forced_fact: Option<u64>,
            sponsors: Sponsors,
            recovery_cutoff: u64,
            id: u64,
        | #[trigger]
            charge.ensures((), (forced_fact, sponsors)) && #[trigger] capture.ensures(
                (),
                (recovery_cutoff, id),
            ) && sponsors.paid() && *final(inner) == old(inner).reload_granted(
                Inner::reload_ticket(
                    id,
                    force,
                    scan_cutoff,
                    forced_fact,
                    recovery_cutoff,
                    sponsors,
                ),
            );
        assert(charge.ensures((), (forced_fact, sponsors)));
        let ticket = final(inner).claimed->0;
        assert(ticket.sponsors == sponsors);
    }
}

/// The first build of a graph, or the retry of one, is claimed on exactly the graphs that may have
/// one: a workspace that is not lost, a daemon that is not leaving, and nothing built or building.
/// Everything else about the graph stays as it is. The ticket is that of a first build, forced
/// where the caller, a forced fact or an owed recovery makes it so.
pub proof fn law_a_first_build_is_claimed_where_one_is_due<
    D: FnOnce() -> (Option<u64>, bool),
    C: FnOnce(bool) -> (Sponsors, u64, u64),
>(
    inner: &mut Inner,
    has_root: bool,
    superseded: bool,
    stopped: bool,
    forced: bool,
    scan_cutoff: u64,
    owed: D,
    charge: C,
    claimed: bool,
)
    requires
        call_ensures(
            Inner::ensure_loading_claimed::<D, C>,
            (inner, has_root, superseded, stopped, forced, scan_cutoff, owed, charge),
            claimed,
        ),
    ensures
        claimed <==> has_root && !superseded && !stopped && (old(inner).status is Idle || old(inner).status is Failed),
        !claimed ==> *final(inner) == *old(inner),
        claimed ==> {
            &&& final(inner).status is Loading
            &&& final(inner).published == old(inner).published
            &&& same_builder(*final(inner), *old(inner))
            &&& final(inner).claimed matches Some(ticket)
            &&& ticket.kind is Initial
            &&& ticket.scan_cutoff == scan_cutoff
            &&& exists|owes_recovery: bool| #[trigger]
                owed.ensures((), (ticket.forced_through, owes_recovery)) && ticket.forced == (forced
                    || ticket.forced_through is Some || owes_recovery) && charge.ensures(
                    (ticket.forced,),
                    (ticket.sponsors, ticket.recovery_cutoff, ticket.claim),
                )
        },
{
}

/// An external builder is given the first build of an idle graph, and of no other: one loading,
/// ready or failed is the ordinary lifecycle's. Its ticket is forced by what is owed alone.
pub proof fn law_an_external_builder_gets_an_idle_graph_only<
    D: FnOnce() -> (Option<u64>, bool),
    C: FnOnce(bool) -> (Sponsors, u64, u64),
>(
    inner: &mut Inner,
    has_root: bool,
    owns: bool,
    stopped: bool,
    scan_cutoff: u64,
    owed: D,
    charge: C,
    claimed: bool,
)
    requires
        call_ensures(
            Inner::try_begin_external_build::<D, C>,
            (inner, has_root, owns, stopped, scan_cutoff, owed, charge),
            claimed,
        ),
    ensures
        claimed <==> has_root && owns && !stopped && old(inner).status is Idle,
        !claimed ==> *final(inner) == *old(inner),
        claimed ==> {
            &&& final(inner).status is Loading
            &&& final(inner).published == old(inner).published
            &&& same_builder(*final(inner), *old(inner))
            &&& final(inner).claimed matches Some(ticket)
            &&& ticket.kind is Initial
            &&& ticket.scan_cutoff == scan_cutoff
            &&& exists|owes_recovery: bool| #[trigger]
                owed.ensures((), (ticket.forced_through, owes_recovery)) && ticket.forced == (
                ticket.forced_through is Some || owes_recovery) && charge.ensures(
                    (ticket.forced,),
                    (ticket.sponsors, ticket.recovery_cutoff, ticket.claim),
                )
        },
{
}

/// A build nothing was admitted for says so: it bills the primary account and no marks, and is
/// forced exactly where a forced fact stands or a recovery is owed.
pub proof fn law_a_direct_mandate_charges_nothing(
    claim: u64,
    is_reload: bool,
    scan_cutoff: u64,
    forced_fact: Option<u64>,
    owes_recovery: bool,
    recovery_cutoff: u64,
    ticket: BuildTicket,
)
    requires
        call_ensures(
            mint_direct_ticket,
            (claim, is_reload, scan_cutoff, forced_fact, owes_recovery, recovery_cutoff),
            ticket,
        ),
    ensures
        ticket.claim == claim,
        ticket.kind is Reload <==> is_reload,
        ticket.forced <==> forced_fact is Some || owes_recovery,
        ticket.scan_cutoff == scan_cutoff,
        ticket.forced_through == forced_fact,
        ticket.recovery_cutoff == recovery_cutoff,
        ticket.sponsors.primary && !ticket.sponsors.marks,
{
}

/// A hand-over puts the admission that was paid for back into the slot as a reload's, whether it
/// was still in the slot or already in a builder's hands, and takes it from nobody. Where nothing
/// was admitted it puts there one that bills no marks.
pub proof fn law_a_handover_passes_on_what_was_paid<F: FnOnce() -> (Option<u64>, bool, u64, u64)>(
    inner: &mut Inner,
    scan_cutoff: u64,
    owed: F,
)
    requires
        call_ensures(Inner::issue_handover_ticket::<F>, (inner, scan_cutoff, owed), ()),
    ensures
        final(inner).status == old(inner).status,
        final(inner).published == old(inner).published,
        same_builder(*final(inner), *old(inner)),
        final(inner).claimed matches Some(handed) && handed.kind is Reload,
        ({
            let handed = final(inner).claimed->0;
            match (old(inner).claimed, old(inner).building) {
                (Some(paid), _) => handed == (BuildTicket { kind: BuildKind::Reload, ..paid }),
                (None, Some(paid)) => handed == (BuildTicket { kind: BuildKind::Reload, ..paid }),
                (None, None) => {
                    &&& handed.sponsors.primary && !handed.sponsors.marks
                    &&& handed.scan_cutoff == scan_cutoff
                    &&& exists|owes_recovery: bool| #[trigger]
                        owed.ensures(
                            (),
                            (
                                handed.forced_through,
                                owes_recovery,
                                handed.recovery_cutoff,
                                handed.claim,
                            ),
                        ) && handed.forced == (handed.forced_through is Some || owes_recovery)
                },
            }
        }),
{
    if old(inner).claimed is None && old(inner).building is None {
        let handed = final(inner).claimed->0;
        let (forced_fact, owes_recovery, recovery_cutoff, id) = choose|
            forced_fact: Option<u64>,
            owes_recovery: bool,
            recovery_cutoff: u64,
            id: u64,
        | #[trigger]
            owed.ensures((), (forced_fact, owes_recovery, recovery_cutoff, id)) && *final(inner) == (
            Inner {
                claimed: Some(
                    crate::inner::direct_ticket(
                        id,
                        BuildKind::Reload,
                        scan_cutoff,
                        forced_fact,
                        owes_recovery,
                        recovery_cutoff,
                    ),
                ),
                ..*old(inner)
            });
        assert(owed.ensures((), (forced_fact, owes_recovery, recovery_cutoff, id)));
        assert(owed.ensures(
            (),
            (handed.forced_through, owes_recovery, handed.recovery_cutoff, handed.claim),
        ));
    }
}

/// The account an outcome is reported under: that of the grant nobody took, else that of the ticket
/// a builder carries, else the primary one alone.
pub open spec fn accounts_of(inner: Inner, sponsors: Sponsors) -> bool {
    match inner.claimed {
        Some(ticket) => sponsors == ticket.sponsors,
        None => match inner.building {
            Some(ticket) => sponsors == ticket.sponsors,
            None => sponsors.primary && !sponsors.marks,
        },
    }
}

/// A first build that failed reads as failed with its message, and its grant is given back; what
/// was published before, and what a builder still carries, stays.
pub proof fn law_a_failed_first_build_gives_its_grant_back(
    inner: &mut Inner,
    message: String,
    sponsors: Sponsors,
)
    requires
        call_ensures(Inner::fail_first_build, (inner, message), sponsors),
    ensures
        final(inner).status == GraphStatus::Failed(message),
        final(inner).claimed is None,
        final(inner).published == old(inner).published,
        same_builder(*final(inner), *old(inner)),
        accounts_of(*old(inner), sponsors),
{
}

/// A reload that failed says so on the publication it was to replace, which is served as before,
/// and its grant is given back.
pub proof fn law_a_failed_reload_keeps_what_is_served(
    inner: &mut Inner,
    message: String,
    sponsors: Sponsors,
)
    requires
        call_ensures(Inner::fail_reload, (inner, message), sponsors),
    ensures
        final(inner).status == old(inner).status,
        final(inner).claimed is None,
        same_builder(*final(inner), *old(inner)),
        accounts_of(*old(inner), sponsors),
        match (old(inner).published, final(inner).published) {
            (Some(before), Some(after)) => after.reload == ReloadState::Failed(message)
                && differ_only_in_reload(before, after),
            (None, None) => true,
            _ => false,
        },
{
}

/// A builder that could not be started at all is a failure of its own kind: it names the error, and
/// ends the admission like any other.
pub proof fn law_a_builder_that_never_started_failed(
    first: &mut Inner,
    reload: &mut Inner,
    error: &str,
    of_first: Sponsors,
    of_reload: Sponsors,
)
    requires
        call_ensures(Inner::loader_not_spawned, (first, error), of_first),
        call_ensures(Inner::reload_not_spawned, (reload, error), of_reload),
    ensures
        final(first).status matches GraphStatus::Failed(message) && message@
            == "could not spawn loader: "@ + error@,
        final(first).claimed is None,
        final(first).published == old(first).published,
        same_builder(*final(first), *old(first)),
        accounts_of(*old(first), of_first),
        final(reload).status == old(reload).status,
        final(reload).claimed is None,
        same_builder(*final(reload), *old(reload)),
        accounts_of(*old(reload), of_reload),
        match (old(reload).published, final(reload).published) {
            (Some(before), Some(after)) => differ_only_in_reload(before, after) && (
            after.reload matches ReloadState::Failed(message) && message@
                == "could not spawn reload: "@ + error@),
            (None, None) => true,
            _ => false,
        },
{
}

/// Settling an admission gives the grant back and reports its accounts, and does nothing else.
pub proof fn law_settling_gives_back_the_grant_alone(inner: &mut Inner, sponsors: Sponsors)
    requires
        call_ensures(Inner::settle_admission, (inner,), sponsors),
    ensures
        final(inner).claimed is None,
        final(inner).status == old(inner).status,
        final(inner).published == old(inner).published,
        same_builder(*final(inner), *old(inner)),
        accounts_of(*old(inner), sponsors),
{
}

/// A claimed reload's builder is started exactly by a generation that stays. One that leaves gives
/// the slot back: nothing is granted any more, and a reload that read as running reads as idle.
pub proof fn law_a_leaving_generation_frees_the_reload_slot(
    inner: &mut Inner,
    superseded: bool,
    stopped: bool,
    start: bool,
)
    requires
        call_ensures(Inner::spawn_reload, (inner, superseded, stopped), start),
    ensures
        start <==> !superseded && !stopped,
        start ==> *final(inner) == *old(inner),
        !start ==> slot_freed(*old(inner), *final(inner)),
{
}

/// The reload slot was freed: the grant is gone, a running reload reads as idle, and nothing else
/// of the graph changed.
pub open spec fn slot_freed(before: Inner, after: Inner) -> bool {
    &&& after.claimed is None
    &&& after.status == before.status
    &&& same_builder(after, before)
    &&& match (before.published, after.published) {
        (Some(was), Some(is)) => differ_only_in_reload(was, is) && is.reload == (
        if was.reload is Running {
            ReloadState::Idle
        } else {
            was.reload
        }),
        (None, None) => true,
        _ => false,
    }
}

/// Giving the reload slot back frees it.
pub proof fn law_a_released_slot_is_free(inner: &mut Inner)
    requires
        call_ensures(Inner::release_reload_slot, (inner,), ()),
    ensures
        slot_freed(*old(inner), *final(inner)),
{
}

/// A comparison that answered the failure clears it: a reload that failed reads as idle, every
/// other state of it stays, and so does everything else.
pub proof fn law_an_answered_failure_is_cleared(inner: &mut Inner)
    requires
        call_ensures(Inner::clear_failed_reload_slot, (inner,), ()),
    ensures
        final(inner).status == old(inner).status,
        same_slot(*final(inner), *old(inner)),
        match (old(inner).published, final(inner).published) {
            (Some(was), Some(is)) => differ_only_in_reload(was, is) && is.reload == (
            if was.reload is Failed {
                ReloadState::Idle
            } else {
                was.reload
            }),
            (None, None) => true,
            _ => false,
        },
{
}

/// A builder takes the ticket that was granted, and from then on carries it: the slot has no other
/// to give, and where nothing was granted nothing is disturbed.
pub proof fn law_a_builder_takes_what_was_granted(inner: &mut Inner, ticket: Option<BuildTicket>)
    requires
        call_ensures(Inner::take_claimed_ticket, (inner,), ticket),
    ensures
        ticket == old(inner).claimed,
        final(inner).claimed is None,
        final(inner).status == old(inner).status,
        final(inner).published == old(inner).published,
        final(inner).carries == old(inner).carries,
        ticket is Some ==> final(inner).building == ticket && final(inner).carrier == 0,
        ticket is None ==> final(inner).building == old(inner).building && final(inner).carrier
            == old(inner).carrier,
{
}

/// A carry has an identity nobody had before, names its ticket while it lasts, and gives it back at
/// its end unless a later carry has taken over; nothing else of the graph moves.
pub proof fn law_a_carry_holds_its_ticket_until_it_ends(
    inner: &mut Inner,
    ticket: Option<BuildTicket>,
    held: CarriedTicket,
    later: &mut Inner,
)
    requires
        old(inner).carries < u64::MAX,
        call_ensures(Inner::carry_ticket, (inner, ticket), held),
        call_ensures(Inner::let_go, (later, held), ()),
    ensures
        final(inner).building == ticket,
        final(inner).carrier == held.id(),
        held.id() == old(inner).carries + 1,
        final(inner).carries == old(inner).carries + 1,
        final(inner).claimed == old(inner).claimed,
        final(inner).status == old(inner).status,
        final(inner).published == old(inner).published,
        old(later).carrier == held.id() ==> final(later).building is None && final(later).carrier
            == 0,
        old(later).carrier != held.id() ==> final(later).building == old(later).building && final(later).carrier == old(later).carrier,
        final(later).claimed == old(later).claimed,
        final(later).carries == old(later).carries,
        final(later).status == old(later).status,
        final(later).published == old(later).published,
{
}

/// A grant is given back by its name alone: another claim's grant, and everything else, stays.
pub proof fn law_only_the_named_grant_is_given_back(inner: &mut Inner, claim: Option<u64>)
    requires
        call_ensures(Inner::release_unused_claim, (inner, claim), ()),
    ensures
        final(inner).claimed == (match (old(inner).claimed, claim) {
            (Some(ticket), Some(named)) if ticket.claim == named => None::<BuildTicket>,
            (granted, _) => granted,
        }),
        final(inner).status == old(inner).status,
        final(inner).published == old(inner).published,
        same_builder(*final(inner), *old(inner)),
{
}

/// An external build that came to nothing leaves an idle graph with nothing granted; a graph that
/// is not loading was not its to give back.
pub proof fn law_an_abandoned_external_build_leaves_an_idle_graph(inner: &mut Inner)
    requires
        call_ensures(Inner::abort_external_build, (inner,), ()),
    ensures
        old(inner).status is Loading ==> final(inner).status is Idle && final(inner).claimed is None,
        !(old(inner).status is Loading) ==> final(inner).status == old(inner).status && final(inner).claimed == old(inner).claimed,
        final(inner).published == old(inner).published,
        same_builder(*final(inner), *old(inner)),
{
}

/// An adopted database is on record as it was found: ready with its files, current up to the
/// observation, with no reload and nothing known against it.
pub proof fn law_an_adopted_database_is_on_record(
    inner: &mut Inner,
    generation: u64,
    fingerprint: GraphFp,
    files: usize,
    search_roots: Option<WorkspaceRoots>,
    observation: u64,
)
    requires
        call_ensures(
            Inner::adopt_prebuilt,
            (inner, generation, fingerprint, files, search_roots, observation),
            (),
        ),
    ensures
        final(inner).status == (GraphStatus::Ready { files }),
        same_slot(*final(inner), *old(inner)),
        final(inner).published matches Some(published) && {
            &&& published.generation == generation
            &&& published.fingerprint.files == fingerprint.files
            &&& published.fingerprint.topology == fingerprint.topology
            &&& published.reload is Idle
            &&& !published.stale && !published.force_stale
            &&& published.search_roots == search_roots
            &&& published.observed_through == Some(observation)
        },
{
}

/// Marks may be charged against the publication on record, up to where it observed, exactly where
/// the graph is ready, no recovery is owed and that build is neither a stale cache nor unsound.
pub proof fn law_marks_are_charged_against_a_sound_ready_publication(
    inner: &Inner,
    owes_recovery: bool,
    observed: Option<u64>,
)
    requires
        call_ensures(Inner::consuming_observation, (inner, owes_recovery), observed),
    ensures
        observed == (match inner.published {
            Some(published) if inner.status is Ready && !owes_recovery && !published.stale
                && !published.force_stale => published.observed_through,
            _ => None,
        }),
{
}

/// A build is on its way where the first one loads or a published graph reloads.
pub open spec fn build_on_its_way(inner: Inner) -> bool {
    inner.status is Loading || (inner.published matches Some(published) && published.reload
        is Running)
}

/// What a decision reads of the lifecycle: the status as it is, a build on its way, and ownership
/// only of a lease that is not lost.
pub proof fn law_a_decision_reads_the_lifecycle_as_it_is(
    inner: &Inner,
    terminal: bool,
    owns_now: bool,
    stopping: bool,
    facts: Facts,
)
    requires
        call_ensures(Inner::facts, (inner, terminal, owns_now, stopping), facts),
    ensures
        facts.ready <==> inner.status is Ready,
        facts.failed <==> inner.status is Failed,
        facts.idle <==> inner.status is Idle,
        facts.in_flight <==> build_on_its_way(*inner),
        facts.owns <==> owns_now && !terminal,
        facts.terminal == terminal,
        facts.stopping == stopping,
{
}

/// What a probe reads before it reserves a walk: as a decision would, but that a slot granted or
/// taken in the meantime counts as a build in flight, and the lease is as it was read before.
pub proof fn law_a_probe_reads_a_claim_in_the_meantime(
    inner: &Inner,
    earlier: Facts,
    stopping: bool,
    live: Facts,
)
    requires
        call_ensures(Inner::live_facts, (inner, earlier, stopping), live),
    ensures
        live.ready <==> inner.status is Ready,
        live.failed <==> inner.status is Failed,
        live.idle <==> inner.status is Idle,
        live.in_flight <==> build_on_its_way(*inner) || inner.claimed is Some || inner.building
            is Some,
        live.owns == earlier.owns,
        live.terminal == earlier.terminal,
        live.stopping == stopping,
{
}

/// The readings of the slot, each on the fields it reads.
pub proof fn law_the_slot_is_read_as_it_is(
    inner: &Inner,
    running: bool,
    pending: bool,
    taken: bool,
    startable: bool,
    waits: bool,
    ticket: Option<BuildTicket>,
    status: GraphStatus,
)
    requires
        call_ensures(Inner::reload_running, (inner,), running),
        call_ensures(Inner::drift_pending, (inner,), pending),
        call_ensures(Inner::build_in_flight, (inner,), taken),
        call_ensures(Inner::can_start, (inner,), startable),
        call_ensures(Inner::waits_for_a_first_build, (inner,), waits),
        call_ensures(Inner::claimed_ticket, (inner,), ticket),
        call_ensures(Inner::status, (inner,), status),
    ensures
        running <==> (inner.published matches Some(published) && published.reload is Running),
        pending <==> build_on_its_way(*inner),
        taken <==> inner.claimed is Some || inner.building is Some,
        startable <==> (inner.status is Idle || inner.status is Failed) && inner.claimed is None
            && inner.building is None,
        waits <==> inner.status is Idle || inner.status is Disabled,
        ticket == inner.claimed,
        status == inner.status,
{
}

/// A fresh graph has nothing built, published, granted or carried; it is idle over a workspace and
/// disabled without one.
pub proof fn law_a_fresh_graph_holds_nothing(
    status: GraphStatus,
    with: Inner,
    disabled: Inner,
    workspace: Inner,
)
    requires
        call_ensures(Inner::with_status, (status,), with),
        call_ensures(Inner::disabled, (), disabled),
        call_ensures(Inner::for_workspace, (), workspace),
    ensures
        with.status == status,
        disabled.status is Disabled,
        workspace.status is Idle,
        forall|inner: Inner|
            inner == with || inner == disabled || inner == workspace ==> (#[trigger] inner.published)
                is None && inner.claimed is None && inner.building is None && inner.carrier == 0
                && inner.carries == 0,
{
}

} // verus!
