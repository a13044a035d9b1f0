//! What becomes of placed marks.
//!
//! A mark is placed for a fact of the stream and waits for a publication that observed the fact. It
//! is consumed by the first one that may be charged, whatever order the facts, the marks and the
//! publications arrive in, and by none that did not observe it.
//!
//! A mark is spoken of here with the fact it was placed for.

use crate::debt::HookDebt;
use crate::inner::Inner;
use crate::intake::GraphStep;
use crate::protocol;
use crate::publish;
use crate::publish::{
    ChargeAsk, ChargeReply, ConsumeObserved, MarkCharge, PassAsk, PassReply, PublishPass,
};
use vstd::prelude::*;

verus! {

/// The answer of a ledger that holds these marks to a question for the bound of an observation: the
/// highest mark whose fact was observed, or none where there is none.
pub open spec fn is_bound(placed: Set<(i64, u64)>, observed: u64, bound: Option<i64>) -> bool {
    match bound {
        Some(bound) => {
            &&& exists|mark: (i64, u64)| #[trigger]
                placed.contains(mark) && mark.1 <= observed && mark.0 == bound
            &&& forall|mark: (i64, u64)| #[trigger]
                placed.contains(mark) && mark.1 <= observed ==> mark.0 <= bound
        },
        None => forall|mark: (i64, u64)| #[trigger] placed.contains(mark) ==> mark.1 > observed,
    }
}

/// The marks a ledger holds once a charge has been consumed.
pub open spec fn left_after(placed: Set<(i64, u64)>, charge: MarkCharge) -> Set<(i64, u64)> {
    placed.filter(|mark: (i64, u64)| !(mark.0 <= charge.bound && mark.1 <= charge.observed))
}

/// The marks a ledger holds after these steps.
pub open spec fn held_after(placed: Set<(i64, u64)>, steps: Seq<GraphStep>) -> Set<(i64, u64)>
    decreases steps.len(),
{
    if steps.len() == 0 {
        placed
    } else {
        let before = held_after(placed, steps.drop_last());
        match steps.last() {
            GraphStep::PlaceMarks { mark_high, fact } => before.insert((mark_high, fact)),
            GraphStep::ConsumeMarks { observed, bound } => left_after(
                before,
                MarkCharge { observed, bound },
            ),
            _ => before,
        }
    }
}

/// The marks that go on waiting where those an observation covers are consumed.
pub open spec fn unobserved(placed: Set<(i64, u64)>, observed: Option<u64>) -> Set<(i64, u64)> {
    match observed {
        Some(observed) => placed.filter(|mark: (i64, u64)| mark.1 > observed),
        None => placed,
    }
}

/// A charge up to the bound of its observation takes every mark the observation covers, and no
/// other.
proof fn lemma_a_charge_is_exact(placed: Set<(i64, u64)>, charge: MarkCharge)
    requires
        is_bound(placed, charge.observed, Some(charge.bound)),
    ensures
        left_after(placed, charge) == unobserved(placed, Some(charge.observed)),
{
    assert(left_after(placed, charge) =~= unobserved(placed, Some(charge.observed)));
}

proof fn lemma_held_after_push(placed: Set<(i64, u64)>, steps: Seq<GraphStep>, step: GraphStep)
    requires
        !(step is PlaceMarks),
    ensures
        held_after(placed, steps.push(step)) == (match step {
            GraphStep::ConsumeMarks { observed, bound } => left_after(
                held_after(placed, steps),
                MarkCharge { observed, bound },
            ),
            _ => held_after(placed, steps),
        }),
{
    assert(steps.push(step).drop_last() =~= steps);
}

/// A publication's pass takes exactly the marks it observed: where the hook took the topology they
/// are rendered from, what goes on waiting is what the publication did not observe, and where it
/// did not, every mark does.
pub proof fn law_a_pass_takes_what_its_publication_observed(
    topology_changed: bool,
    replies: Seq<PassReply>,
    placed: Set<(i64, u64)>,
)
    requires
        protocol::conversation(PublishPass::begun(topology_changed), replies),
        protocol::run(PublishPass::begun(topology_changed), replies).ask is Report,
        replies[2] matches PassReply::Observed(Some(observed)) ==> (replies[3] matches PassReply::Bound(
            bound,
        ) && is_bound(placed, observed, bound)),
    ensures
        ({
            let ask = protocol::run(PublishPass::begun(topology_changed), replies).ask;
            let report = publish::pass_report(
                ask->Report_revision,
                ask->Report_topology,
                ask->Report_marks,
                ask->outcome,
            );
            &&& replies[2] is Observed
            &&& held_after(placed, report) == (if ask->outcome.topology_handled {
                unobserved(placed, replies[2]->Observed_0)
            } else {
                placed
            })
        }),
{
    let ask = protocol::run(PublishPass::begun(topology_changed), replies).ask;
    publish::law_a_pass_charges_what_it_observed(topology_changed, replies);
    publish::lemma_pass_observed(topology_changed, replies);
    let outcome = ask->outcome;
    let marks = ask->Report_marks;
    let nothing = Seq::<GraphStep>::empty();
    let handled = HookDebt { topology: outcome.topology_handled, roots: outcome.roots_handled };
    let first = GraphStep::HookHandled { revision: ask->Report_revision, handled };
    let second = GraphStep::RecordHook(publish::left_owed(ask->Report_topology, outcome));
    lemma_held_after_push(placed, nothing, first);
    lemma_held_after_push(placed, nothing.push(first), second);
    let answered = nothing.push(first).push(second);
    assert(answered =~= seq![first, second]);
    lemma_held_after_push(placed, answered, GraphStep::PaceHookRefusal);
    if let Some(charge) = marks {
        let consume = GraphStep::ConsumeMarks { observed: charge.observed, bound: charge.bound };
        lemma_held_after_push(placed, answered, consume);
        lemma_a_charge_is_exact(placed, charge);
    } else if replies[2]->Observed_0 is Some {
        assert(unobserved(placed, replies[2]->Observed_0) =~= placed);
    }
}

/// A charge between publications takes exactly the marks the publication on record observed.
pub proof fn law_a_charge_takes_what_its_publication_observed(
    inner: Inner,
    owes_recovery: bool,
    replies: Seq<ChargeReply>,
    placed: Set<(i64, u64)>,
)
    requires
        protocol::conversation(ConsumeObserved::begun(inner, owes_recovery), replies),
        protocol::run(ConsumeObserved::begun(inner, owes_recovery), replies).ask is Consume,
        inner.observed(owes_recovery) matches Some(observed) ==> (replies[0] matches ChargeReply::Bound(
            bound,
        ) && is_bound(placed, observed, bound)),
    ensures
        left_after(
            placed,
            protocol::run(ConsumeObserved::begun(inner, owes_recovery), replies).ask->Consume_0,
        ) == unobserved(placed, inner.observed(owes_recovery)),
{
    publish::law_a_charge_needs_a_sound_publication(inner, owes_recovery, replies);
    let charge = protocol::run(ConsumeObserved::begun(inner, owes_recovery), replies).ask->Consume_0;
    lemma_a_charge_is_exact(placed, charge);
}

/// What happens to marks, as far as it decides how long they wait.
pub enum MarkEvent {
    /// A mark was placed for a fact.
    Placed { mark: i64, fact: u64 },
    /// From here on the publication on record may be charged up to this observation, or not at all:
    /// one was published, or a build began.
    Standing { observed: Option<u64> },
}

/// The observation that may be charged once all this has happened.
pub open spec fn chargeable(history: Seq<MarkEvent>) -> Option<u64>
    decreases history.len(),
{
    if history.len() == 0 {
        None
    } else {
        match history.last() {
            MarkEvent::Standing { observed } => observed,
            MarkEvent::Placed { .. } => chargeable(history.drop_last()),
        }
    }
}

/// The marks that wait once all this has happened, where every charge was taken: a placing and a
/// publication are each followed by a charge.
pub open spec fn waiting(history: Seq<MarkEvent>) -> Set<(i64, u64)>
    decreases history.len(),
{
    if history.len() == 0 {
        Set::empty()
    } else {
        let before = waiting(history.drop_last());
        let placed = match history.last() {
            MarkEvent::Placed { mark, fact } => before.insert((mark, fact)),
            MarkEvent::Standing { .. } => before,
        };
        unobserved(placed, chargeable(history))
    }
}

/// Between the placing at `i` and the end nothing that may be charged observed the mark's fact.
pub open spec fn missed(history: Seq<MarkEvent>, i: int, mark: i64, fact: u64) -> bool {
    &&& 0 <= i < history.len()
    &&& history[i] == (MarkEvent::Placed { mark, fact })
    &&& forall|j: int|
        i < j <= history.len() ==> ((#[trigger] chargeable(history.take(j))) matches Some(observed)
            ==> observed < fact)
}

/// A mark waits exactly as long as no publication that may be charged has observed its fact, in
/// every order of placings and publications: neither a mark placed before the publication that
/// observes it nor one placed after it is left behind, and none is taken by a publication that did
/// not observe it.
pub proof fn law_a_mark_waits_for_the_publication_that_observed_it(
    history: Seq<MarkEvent>,
    mark: i64,
    fact: u64,
)
    ensures
        waiting(history).contains((mark, fact)) <==> exists|i: int| missed(history, i, mark, fact),
    decreases history.len(),
{
    if history.len() > 0 {
        let before = history.drop_last();
        let n = history.len() as int;
        law_a_mark_waits_for_the_publication_that_observed_it(before, mark, fact);
        assert(history.take(n) =~= history);
        assert forall|j: int| 0 <= j < n implies #[trigger] history.take(j) == before.take(j) by {
            assert(history.take(j) =~= before.take(j));
        }
        if waiting(history).contains((mark, fact)) {
            if history.last() == (MarkEvent::Placed { mark, fact }) {
                assert(missed(history, n - 1, mark, fact)) by {
                    assert forall|j: int| n - 1 < j <= n implies ((#[trigger] chargeable(
                        history.take(j),
                    )) matches Some(observed) ==> observed < fact) by {
                        assert(j == n);
                    }
                }
            } else {
                let i = choose|i: int| missed(before, i, mark, fact);
                assert(missed(history, i, mark, fact)) by {
                    assert forall|j: int| i < j <= n implies ((#[trigger] chargeable(
                        history.take(j),
                    )) matches Some(observed) ==> observed < fact) by {
                        if j < n {
                            assert(chargeable(before.take(j)) == chargeable(history.take(j)));
                        }
                    }
                }
            }
        }
        if exists|i: int| missed(history, i, mark, fact) {
            let i = choose|i: int| missed(history, i, mark, fact);
            assert(chargeable(history.take(n)) matches Some(observed) ==> observed < fact);
            if i < n - 1 {
                assert(missed(before, i, mark, fact)) by {
                    assert forall|j: int| i < j <= before.len() implies ((#[trigger] chargeable(
                        before.take(j),
                    )) matches Some(observed) ==> observed < fact) by {
                        assert(history.take(j) == before.take(j));
                        assert(chargeable(history.take(j)) == chargeable(before.take(j)));
                    }
                }
            }
        }
    }
}

/// A graph's lifecycle, and whether a recovery is owed: what marks may be charged against.
pub struct Standing {
    pub inner: Inner,
    pub owes_recovery: bool,
}

impl Standing {
    pub open spec fn observed(self) -> Option<u64> {
        self.inner.observed(self.owes_recovery)
    }
}

/// What was done about marks, with everything its owners were told.
pub enum MarkRun {
    /// A mark was placed for a fact, and charged against the publication that stood.
    Placed { mark: i64, fact: u64, charge: Seq<ChargeReply> },
    /// A publication was installed, and its pass was made.
    Published { to: Standing, topology_changed: bool, pass: Seq<PassReply> },
    /// A build began.
    BuildBegan { to: Standing },
}

/// What stands once all this was done.
pub open spec fn stands(fresh: Standing, runs: Seq<MarkRun>) -> Standing
    decreases runs.len(),
{
    if runs.len() == 0 {
        fresh
    } else {
        match runs.last() {
            MarkRun::Placed { .. } => stands(fresh, runs.drop_last()),
            MarkRun::Published { to, .. } => to,
            MarkRun::BuildBegan { to } => to,
        }
    }
}

/// The charge a conversation asked to have consumed, if it did.
pub open spec fn consumed_by(begun: ConsumeObserved, replies: Seq<ChargeReply>) -> Option<MarkCharge>
    decreases replies.len(),
{
    if replies.len() == 0 {
        None
    } else {
        match protocol::run(begun, replies.drop_last()).ask {
            ChargeAsk::Consume(charge) => Some(charge),
            _ => consumed_by(begun, replies.drop_last()),
        }
    }
}

/// What a pass reported of the hook's reply, if it did.
pub open spec fn reported_by(begun: PublishPass, replies: Seq<PassReply>) -> Seq<GraphStep>
    decreases replies.len(),
{
    if replies.len() == 0 {
        Seq::empty()
    } else {
        match protocol::run(begun, replies.drop_last()).ask {
            PassAsk::Report { revision, topology, marks, outcome } => publish::pass_report(
                revision,
                topology,
                marks,
                outcome,
            ),
            _ => reported_by(begun, replies.drop_last()),
        }
    }
}

/// The marks the ledger holds once all this was done.
pub open spec fn held(fresh: Standing, runs: Seq<MarkRun>) -> Set<(i64, u64)>
    decreases runs.len(),
{
    if runs.len() == 0 {
        Set::empty()
    } else {
        let earlier = runs.drop_last();
        let before = held(fresh, earlier);
        match runs.last() {
            MarkRun::Placed { mark, fact, charge } => {
                let placed = before.insert((mark, fact));
                let standing = stands(fresh, earlier);
                match consumed_by(
                    ConsumeObserved::begun(standing.inner, standing.owes_recovery),
                    charge,
                ) {
                    Some(charge) => left_after(placed, charge),
                    None => placed,
                }
            },
            MarkRun::Published { topology_changed, pass, .. } => held_after(
                before,
                reported_by(PublishPass::begun(topology_changed), pass),
            ),
            MarkRun::BuildBegan { .. } => before,
        }
    }
}

/// A ledger that holds these marks answered for them, and the hook took what it was asked.
pub open spec fn charged_in_full(
    replies: Seq<ChargeReply>,
    placed: Set<(i64, u64)>,
    observed: Option<u64>,
) -> bool {
    forall|i: int|
        0 <= i < replies.len() ==> match #[trigger] replies[i] {
            ChargeReply::Bound(bound) => observed is Some && is_bound(placed, observed->0, bound),
            ChargeReply::Outcome(outcome) => outcome.topology_handled && outcome.roots_handled,
            ChargeReply::Finished => true,
        }
}

/// The lease was owned, the publication is the one that was installed, a ledger that holds these
/// marks answered for them, and the hook took what it was asked.
pub open spec fn passed_in_full(
    replies: Seq<PassReply>,
    placed: Set<(i64, u64)>,
    observed: Option<u64>,
) -> bool {
    forall|i: int|
        0 <= i < replies.len() ==> match #[trigger] replies[i] {
            PassReply::Owns(owns) => owns,
            PassReply::Observed(read) => read == observed,
            PassReply::Bound(bound) => observed is Some && is_bound(placed, observed->0, bound),
            PassReply::Outcome(outcome) => outcome.topology_handled && outcome.roots_handled,
            _ => true,
        }
}

/// All this was done by the graph's own owners, each to its end, from a graph nothing could be
/// charged against, over a ledger that keeps marks and a hook that takes everything.
pub open spec fn happened(fresh: Standing, runs: Seq<MarkRun>) -> bool
    decreases runs.len(),
{
    if runs.len() == 0 {
        fresh.observed() is None
    } else {
        let earlier = runs.drop_last();
        &&& happened(fresh, earlier)
        &&& match runs.last() {
            MarkRun::Placed { mark, fact, charge } => {
                let standing = stands(fresh, earlier);
                let begun = ConsumeObserved::begun(standing.inner, standing.owes_recovery);
                &&& protocol::conversation(begun, charge)
                &&& protocol::run(begun, charge).ask is Done
                &&& charged_in_full(
                    charge,
                    held(fresh, earlier).insert((mark, fact)),
                    standing.observed(),
                )
            },
            MarkRun::Published { to, topology_changed, pass } => {
                &&& protocol::conversation(PublishPass::begun(topology_changed), pass)
                &&& protocol::run(PublishPass::begun(topology_changed), pass).ask is Done
                &&& passed_in_full(pass, held(fresh, earlier), to.observed())
            },
            MarkRun::BuildBegan { to } => to.inner.status is Loading,
        }
    }
}

/// What happened, as far as it decides how long marks wait.
pub open spec fn history_of(runs: Seq<MarkRun>) -> Seq<MarkEvent> {
    runs.map_values(
        |run: MarkRun|
            match run {
                MarkRun::Placed { mark, fact, .. } => MarkEvent::Placed { mark, fact },
                MarkRun::Published { to, .. } => MarkEvent::Standing { observed: to.observed() },
                MarkRun::BuildBegan { to } => MarkEvent::Standing { observed: to.observed() },
            },
    )
}

/// Where a conversation with a charge stands, the hook taking everything.
proof fn lemma_charge_stands(
    standing: Standing,
    replies: Seq<ChargeReply>,
    placed: Set<(i64, u64)>,
)
    requires
        protocol::conversation(
            ConsumeObserved::begun(standing.inner, standing.owes_recovery),
            replies,
        ),
        charged_in_full(replies, placed, standing.observed()),
    ensures
        ({
            let begun = ConsumeObserved::begun(standing.inner, standing.owes_recovery);
            let consumed = consumed_by(begun, replies);
            match protocol::run(begun, replies).ask {
                ChargeAsk::ReadBound { observed } => consumed is None && standing.observed() == Some(
                    observed,
                ),
                ChargeAsk::Fire { charge, call } => consumed is None && standing.observed() == Some(
                    charge.observed,
                ) && is_bound(placed, charge.observed, Some(charge.bound)) && call.mark_bound
                    == charge.bound,
                ChargeAsk::Consume(charge) => consumed is None && standing.observed() == Some(
                    charge.observed,
                ) && is_bound(placed, charge.observed, Some(charge.bound)),
                ChargeAsk::Done => match consumed {
                    Some(charge) => standing.observed() == Some(charge.observed) && is_bound(
                        placed,
                        charge.observed,
                        Some(charge.bound),
                    ),
                    None => standing.observed() is None || is_bound(
                        placed,
                        standing.observed()->0,
                        None,
                    ),
                },
            }
        }),
    decreases replies.len(),
{
    if replies.len() > 0 {
        let before = replies.drop_last();
        assert(charged_in_full(before, placed, standing.observed())) by {
            assert forall|i: int| 0 <= i < before.len() implies match #[trigger] before[i] {
                ChargeReply::Bound(bound) => standing.observed() is Some && is_bound(
                    placed,
                    standing.observed()->0,
                    bound,
                ),
                ChargeReply::Outcome(outcome) => outcome.topology_handled && outcome.roots_handled,
                ChargeReply::Finished => true,
            } by {
                assert(before[i] == replies[i]);
            }
        }
        lemma_charge_stands(standing, before, placed);
        assert(replies[replies.len() - 1] == replies.last());
    }
}

/// A pass the hook took everything of has reported it by its end.
proof fn lemma_pass_reported(
    topology_changed: bool,
    replies: Seq<PassReply>,
    placed: Set<(i64, u64)>,
    observed: Option<u64>,
)
    requires
        protocol::conversation(PublishPass::begun(topology_changed), replies),
        passed_in_full(replies, placed, observed),
    ensures
        ({
            let begun = PublishPass::begun(topology_changed);
            let ask = protocol::run(begun, replies).ask;
            &&& !(ask is SettleOnly)
            &&& ask is SettleAndDrive || ask is Done ==> held_after(
                placed,
                reported_by(begun, replies),
            ) == unobserved(placed, observed)
        }),
    decreases replies.len(),
{
    let begun = PublishPass::begun(topology_changed);
    if replies.len() > 0 {
        let before = replies.drop_last();
        assert(passed_in_full(before, placed, observed)) by {
            assert forall|i: int| 0 <= i < before.len() implies match #[trigger] before[i] {
                PassReply::Owns(owns) => owns,
                PassReply::Observed(read) => read == observed,
                PassReply::Bound(bound) => observed is Some && is_bound(
                    placed,
                    observed->0,
                    bound,
                ),
                PassReply::Outcome(outcome) => outcome.topology_handled && outcome.roots_handled,
                _ => true,
            } by {
                assert(before[i] == replies[i]);
            }
        }
        lemma_pass_reported(topology_changed, before, placed, observed);
        assert(replies[replies.len() - 1] == replies.last());
        if protocol::run(begun, before).ask is Report {
            publish::law_a_pass_charges_what_it_observed(topology_changed, before);
            publish::lemma_pass_observed(topology_changed, before);
            if before[2] is Observed && before[2]->Observed_0 is Some {
                publish::lemma_pass_read_the_bound(topology_changed, before);
            }
            law_a_pass_takes_what_its_publication_observed(topology_changed, before, placed);
            let outcome = protocol::run(begun, before).ask->outcome;
            assert(before[before.len() - 1] == PassReply::Outcome(outcome));
        }
    }
}

proof fn lemma_held_is_waiting(fresh: Standing, runs: Seq<MarkRun>)
    requires
        happened(fresh, runs),
    ensures
        chargeable(history_of(runs)) == stands(fresh, runs).observed(),
        held(fresh, runs) == waiting(history_of(runs)),
    decreases runs.len(),
{
    if runs.len() > 0 {
        let earlier = runs.drop_last();
        lemma_held_is_waiting(fresh, earlier);
        let history = history_of(runs);
        assert(history.drop_last() =~= history_of(earlier));
        let before = held(fresh, earlier);
        match runs.last() {
            MarkRun::Placed { mark, fact, charge } => {
                let standing = stands(fresh, earlier);
                let placed = before.insert((mark, fact));
                lemma_charge_stands(standing, charge, placed);
                let begun = ConsumeObserved::begun(standing.inner, standing.owes_recovery);
                match consumed_by(begun, charge) {
                    Some(charge) => {
                        lemma_a_charge_is_exact(placed, charge);
                    },
                    None => {
                        assert(unobserved(placed, standing.observed()) =~= placed);
                    },
                }
            },
            MarkRun::Published { to, topology_changed, pass } => {
                lemma_pass_reported(topology_changed, pass, before, to.observed());
            },
            MarkRun::BuildBegan { to } => {},
        }
    }
}

/// In every order of placings, publications and builds beginning, made by the graph's own owners: a
/// mark is gone from the ledger exactly where a publication that observed its fact stood when it
/// was placed, or was installed after it.
pub proof fn law_marks_are_consumed_by_an_observing_publication_in_every_order(
    fresh: Standing,
    runs: Seq<MarkRun>,
    mark: i64,
    fact: u64,
)
    requires
        happened(fresh, runs),
    ensures
        held(fresh, runs).contains((mark, fact)) <==> exists|i: int|
            missed(history_of(runs), i, mark, fact),
{
    lemma_held_is_waiting(fresh, runs);
    law_a_mark_waits_for_the_publication_that_observed_it(history_of(runs), mark, fact);
}

/// The bound a pass offers its hook is never above the marks its publication observed: it is that
/// of a mark that waits and whose fact was observed, or zero.
pub proof fn law_a_pass_offers_no_mark_it_did_not_observe(
    topology_changed: bool,
    replies: Seq<PassReply>,
    placed: Set<(i64, u64)>,
    observed: Option<u64>,
)
    requires
        protocol::conversation(PublishPass::begun(topology_changed), replies),
        protocol::run(PublishPass::begun(topology_changed), replies).ask is Fire,
        passed_in_full(replies, placed, observed),
    ensures
        ({
            let bound = protocol::run(
                PublishPass::begun(topology_changed),
                replies,
            ).ask->call.mark_bound;
            bound == 0 || exists|mark: (i64, u64)| #[trigger]
                placed.contains(mark) && mark.0 == bound && observed is Some && mark.1
                    <= observed->0
        }),
{
    publish::law_every_publication_checks_the_roots(topology_changed, replies);
    let ask = protocol::run(PublishPass::begun(topology_changed), replies).ask;
    if let Some(charge) = ask->Fire_marks {
        assert(replies[2] == PassReply::Observed(Some(charge.observed)));
        assert(replies[3] == PassReply::Bound(Some(charge.bound)));
    }
}

/// The bound a charge offers its hook is that of a mark that waits and whose fact the publication
/// on record observed.
pub proof fn law_a_charge_offers_no_mark_its_publication_did_not_observe(
    standing: Standing,
    replies: Seq<ChargeReply>,
    placed: Set<(i64, u64)>,
)
    requires
        protocol::conversation(
            ConsumeObserved::begun(standing.inner, standing.owes_recovery),
            replies,
        ),
        protocol::run(
            ConsumeObserved::begun(standing.inner, standing.owes_recovery),
            replies,
        ).ask is Fire,
        charged_in_full(replies, placed, standing.observed()),
    ensures
        ({
            let bound = protocol::run(
                ConsumeObserved::begun(standing.inner, standing.owes_recovery),
                replies,
            ).ask->call.mark_bound;
            exists|mark: (i64, u64)| #[trigger]
                placed.contains(mark) && mark.0 == bound && standing.observed() is Some && mark.1
                    <= standing.observed()->0
        }),
{
    lemma_charge_stands(standing, replies, placed);
}

proof fn lemma_happened_so_far(fresh: Standing, runs: Seq<MarkRun>, k: int)
    requires
        happened(fresh, runs),
        0 <= k <= runs.len(),
    ensures
        happened(fresh, runs.take(k)),
    decreases runs.len(),
{
    if k == runs.len() {
        assert(runs.take(k) =~= runs);
    } else {
        lemma_happened_so_far(fresh, runs.drop_last(), k);
        assert(runs.drop_last().take(k) =~= runs.take(k));
    }
}

/// In every such order, the bound the hook is called with under a publication is never above the
/// marks placed by then whose facts it observed: it is that of one of them, or zero.
pub proof fn law_no_offer_reaches_past_its_publication(
    fresh: Standing,
    runs: Seq<MarkRun>,
    i: int,
    k: int,
)
    requires
        happened(fresh, runs),
        0 <= i < runs.len(),
    ensures
        runs[i] matches MarkRun::Published { to, topology_changed, pass } ==> {
            let ask = protocol::run(PublishPass::begun(topology_changed), pass.take(k)).ask;
            0 <= k <= pass.len() && ask is Fire ==> ask->call.mark_bound == 0 || exists|
                mark: (i64, u64),
            | #[trigger]
                held(fresh, runs.take(i)).contains(mark) && mark.0 == ask->call.mark_bound
                    && to.observed() is Some && mark.1 <= to.observed()->0
        },
        runs[i] matches MarkRun::Placed { mark: placed, fact, charge } ==> {
            let standing = stands(fresh, runs.take(i));
            let ask = protocol::run(
                ConsumeObserved::begun(standing.inner, standing.owes_recovery),
                charge.take(k),
            ).ask;
            0 <= k <= charge.len() && ask is Fire ==> exists|mark: (i64, u64)| #[trigger]
                held(fresh, runs.take(i)).insert((placed, fact)).contains(mark) && mark.0
                    == ask->call.mark_bound && standing.observed() is Some && mark.1
                    <= standing.observed()->0
        },
{
    let upto = runs.take(i + 1);
    lemma_happened_so_far(fresh, runs, i + 1);
    assert(upto.drop_last() =~= runs.take(i));
    assert(upto.last() == runs[i]);
    let before = held(fresh, runs.take(i));
    match runs[i] {
        MarkRun::Published { to, topology_changed, pass } => {
            if 0 <= k <= pass.len() {
                let said = pass.take(k);
                protocol::lemma_conversation_so_far(PublishPass::begun(topology_changed), pass, k);
                assert(passed_in_full(said, before, to.observed())) by {
                    assert forall|j: int| 0 <= j < said.len() implies match #[trigger] said[j] {
                        PassReply::Owns(owns) => owns,
                        PassReply::Observed(read) => read == to.observed(),
                        PassReply::Bound(bound) => to.observed() is Some && is_bound(
                            before,
                            to.observed()->0,
                            bound,
                        ),
                        PassReply::Outcome(outcome) => outcome.topology_handled
                            && outcome.roots_handled,
                        _ => true,
                    } by {
                        assert(said[j] == pass[j]);
                    }
                }
                if protocol::run(PublishPass::begun(topology_changed), said).ask is Fire {
                    law_a_pass_offers_no_mark_it_did_not_observe(
                        topology_changed,
                        said,
                        before,
                        to.observed(),
                    );
                }
            }
        },
        MarkRun::Placed { mark, fact, charge } => {
            let standing = stands(fresh, runs.take(i));
            let placed = before.insert((mark, fact));
            let begun = ConsumeObserved::begun(standing.inner, standing.owes_recovery);
            if 0 <= k <= charge.len() {
                let said = charge.take(k);
                protocol::lemma_conversation_so_far(begun, charge, k);
                assert(charged_in_full(said, placed, standing.observed())) by {
                    assert forall|j: int| 0 <= j < said.len() implies match #[trigger] said[j] {
                        ChargeReply::Bound(bound) => standing.observed() is Some && is_bound(
                            placed,
                            standing.observed()->0,
                            bound,
                        ),
                        ChargeReply::Outcome(outcome) => outcome.topology_handled
                            && outcome.roots_handled,
                        ChargeReply::Finished => true,
                    } by {
                        assert(said[j] == charge[j]);
                    }
                }
                if protocol::run(begun, said).ask is Fire {
                    law_a_charge_offers_no_mark_its_publication_did_not_observe(
                        standing,
                        said,
                        placed,
                    );
                }
            }
        },
        MarkRun::BuildBegan { to } => {},
    }
}

} // verus!
