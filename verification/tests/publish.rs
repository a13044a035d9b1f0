use graph_state::debt::{Decision, Facts, HookDebt};
use graph_state::executor::{Drive, DriveAsk, DriveReply, Executor};
use graph_state::inner::Inner;
use graph_state::intake::{
    consume_leftover_marks, marks_placed, marks_settled, note_request, observation,
    observe_current_level, record_change, record_change_quietly, record_forced, record_loss,
    record_loss_quietly, GraphStep,
};
use graph_state::locks::{claim_hook_offer, LockRefusal};
use graph_state::publish::{
    charge_call, offer_answered, offer_call, pass_call, pass_answered, pass_over, ChargeAsk, ChargeReply, ConsumeObserved,
    HookCall, HookOffer, MarkCharge, OfferAsk, OfferReply, PassAsk, PassReply, PublishPass,
};
use std::sync::{Mutex, MutexGuard, TryLockError};
use graph_state::types::{
    GraphFp, GraphPublishOutcome, GraphStatus, Published, ReloadState, WorkspaceRoots,
};

const HANDLED: GraphPublishOutcome =
    GraphPublishOutcome { topology_handled: true, roots_handled: true };
const REFUSED: GraphPublishOutcome =
    GraphPublishOutcome { topology_handled: false, roots_handled: false };

fn published(observed_through: Option<u64>, stale: bool, force_stale: bool) -> Published {
    Published {
        generation: 1,
        fingerprint: GraphFp { files: 0, topology: 6 },
        stale,
        reload: ReloadState::Idle,
        force_stale,
        search_roots: None,
        observed_through,
    }
}

/// What a hook was told: the bound, the topology bit and the roots bit.
type Told = (i64, bool, bool);

/// A graph with the smallest ledger that answers it: placed marks, what the hook owes, and whether
/// it was paced.
struct Stand {
    inner: Inner,
    has_root: bool,
    owns: bool,
    owes_recovery: bool,
    placed: Vec<(i64, u64)>,
    owed: HookDebt,
    revision: u64,
    paced: bool,
    marks_owed: bool,
    told: Vec<Told>,
    hook: Box<dyn FnMut(Told, usize) -> GraphPublishOutcome>,
}

impl Stand {
    fn new(hook: impl FnMut(Told, usize) -> GraphPublishOutcome + 'static) -> Stand {
        Stand {
            inner: Inner::for_workspace(),
            has_root: true,
            owns: true,
            owes_recovery: false,
            placed: Vec::new(),
            owed: HookDebt { topology: false, roots: false },
            revision: 0,
            paced: false,
            marks_owed: false,
            told: Vec::new(),
            hook: Box::new(hook),
        }
    }

    fn fire(&mut self, call: HookCall) -> GraphPublishOutcome {
        let signal = self.inner.publish_signal(call);
        let told = (signal.mark_bound, signal.topology_changed, signal.roots_refresh_requested);
        self.told.push(told);
        (self.hook)(told, self.told.len())
    }

    fn bound(&self, observed: u64) -> Option<i64> {
        self.placed.iter().filter(|(_, fact)| *fact <= observed).map(|(mark, _)| *mark).max()
    }

    fn step(&mut self, step: GraphStep) {
        match step {
            GraphStep::PlaceMarks { mark_high, fact } => self.placed.push((mark_high, fact)),
            GraphStep::ConsumeMarks { observed, bound } => {
                self.placed.retain(|(mark, fact)| *mark > bound || *fact > observed);
            }
            GraphStep::HookHandled { revision, handled } => {
                if revision == self.revision {
                    self.owed.topology &= !handled.topology;
                    self.owed.roots &= !handled.roots;
                }
            }
            GraphStep::RecordHook(left) => {
                if left.any() {
                    self.revision += 1;
                    self.paced = false;
                }
                self.owed.topology |= left.topology;
                self.owed.roots |= left.roots;
            }
            GraphStep::HookRefused { revision } => self.paced |= revision == self.revision,
            GraphStep::PaceHookRefusal => self.paced = true,
            GraphStep::ConsumeObservedMarks => self.consume_observed_marks(),
            GraphStep::SettleMarks => {
                self.marks_owed = !self.placed.is_empty() && !self.inner.drift_pending();
                for step in marks_settled(self.marks_owed) {
                    self.step(step);
                }
            }
            GraphStep::Wake => {}
            GraphStep::Drive => {
                self.drive();
            }
            other => panic!("a publication never takes the step {other:?}"),
        }
    }

    fn record_hook_debt(&mut self, owed: HookDebt) {
        self.step(GraphStep::RecordHook(owed));
    }

    fn marks_placed(&mut self, mark_high: i64, fact: u64) {
        for step in marks_placed(false, mark_high, fact) {
            self.step(step);
        }
    }

    fn consume_observed_marks(&mut self) {
        let mut charge = ConsumeObserved::begin(&self.inner, self.owes_recovery);
        loop {
            charge = match charge.ask {
                ChargeAsk::ReadBound { observed } => {
                    charge.reply(ChargeReply::Bound(self.bound(observed)))
                }
                ChargeAsk::Fire { call, .. } => {
                    charge.reply(ChargeReply::Outcome(self.fire(call)))
                }
                ChargeAsk::Consume(MarkCharge { observed, bound }) => {
                    self.step(GraphStep::ConsumeMarks { observed, bound });
                    charge.reply(ChargeReply::Finished)
                }
                ChargeAsk::Done => return,
            };
        }
    }

    fn notify_published(&mut self, topology_changed: bool) {
        let mut pass = PublishPass::begin(topology_changed);
        loop {
            pass = match pass.ask {
                PassAsk::ConfirmOwnership => pass.reply(PassReply::Owns(self.owns)),
                PassAsk::SettleOnly => {
                    self.step(GraphStep::SettleMarks);
                    pass.reply(PassReply::Finished)
                }
                PassAsk::ClaimHook => {
                    pass.reply(PassReply::Claimed { revision: self.revision, owed: self.owed })
                }
                PassAsk::ReadObservation { .. } => pass.reply(PassReply::Observed(
                    self.inner.consuming_observation(self.owes_recovery),
                )),
                PassAsk::ReadBound { observed, .. } => {
                    pass.reply(PassReply::Bound(self.bound(observed)))
                }
                PassAsk::Fire { call, .. } => pass.reply(PassReply::Outcome(self.fire(call))),
                PassAsk::Report { revision, topology, marks, outcome } => {
                    for step in pass_answered(revision, topology, marks, outcome) {
                        self.step(step);
                    }
                    pass.reply(PassReply::Finished)
                }
                PassAsk::SettleAndDrive => {
                    for step in pass_over() {
                        self.step(step);
                    }
                    pass.reply(PassReply::Finished)
                }
                PassAsk::Done => return,
            };
        }
    }

    fn publish(&mut self, observed_through: Option<u64>, stale: bool, force_stale: bool) {
        self.inner.status = GraphStatus::Ready { files: 0 };
        self.inner.published = Some(published(observed_through, stale, force_stale));
        self.notify_published(false);
    }

    fn offer(&mut self) -> bool {
        let mut offer = HookOffer::begin(&self.inner);
        loop {
            offer = match offer.ask {
                OfferAsk::ClaimHook => {
                    offer.reply(OfferReply::Claimed { revision: self.revision, owed: self.owed })
                }
                OfferAsk::Fire { call, .. } => offer.reply(OfferReply::Outcome(self.fire(call))),
                OfferAsk::Report { revision, handled } => {
                    for step in offer_answered(revision, handled) {
                        self.step(step);
                    }
                    offer.reply(OfferReply::Finished)
                }
                OfferAsk::Done { acted } => return acted,
            };
        }
    }

    /// Drive what the hook is owed. Says whether a continuation was latched.
    fn drive(&mut self) -> bool {
        let facts = Facts {
            ready: true,
            failed: false,
            idle: false,
            in_flight: false,
            owns: self.owns,
            terminal: false,
            stopping: false,
        };
        let mut latched = false;
        let mut drive = Drive::begin(self.has_root, Executor::Any);
        loop {
            let reply = match drive.ask {
                DriveAsk::EntryFacts | DriveAsk::TurnFacts => DriveReply::Facts(facts),
                DriveAsk::Decide(_) => {
                    let nothing = HookDebt { topology: false, roots: false };
                    DriveReply::Decision(Decision {
                        start: None,
                        check: false,
                        probe: false,
                        flush_hook: if self.paced { nothing } else { self.owed },
                        wake_at: None,
                    })
                }
                DriveAsk::Flush { .. } => DriveReply::Flushed(self.offer()),
                DriveAsk::AskStale => DriveReply::Stale(self.owed.any() || self.marks_owed),
                DriveAsk::Hold => DriveReply::Finished,
                DriveAsk::Latch => {
                    latched = true;
                    DriveReply::Finished
                }
                DriveAsk::Done => return latched,
                other => panic!("nothing but the hook is owed, and yet {other:?}"),
            };
            drive = drive.reply(reply);
        }
    }

    fn flush_hook_obligations(&mut self) -> bool {
        self.inner.may_flush_hook_obligations(self.owns) && self.offer()
    }

    fn consumed(&self, bound: i64) -> bool {
        self.told.iter().any(|(told, _, _)| *told == bound)
    }

    fn marks_pending(&self) -> bool {
        !self.placed.is_empty()
    }
}

/// What each of the three calls asks of the hook.
#[test]
fn the_hook_is_asked_for_what_its_caller_owes() {
    let marks = MarkCharge { observed: 8, bound: 5 };
    let call = |mark_bound, topology_changed, roots_refresh_requested| HookCall {
        mark_bound,
        topology_changed,
        roots_refresh_requested,
    };
    assert_eq!(pass_call(true, Some(marks)), call(5, true, true));
    assert_eq!(pass_call(false, None), call(0, false, true), "every publication checks the roots");
    assert_eq!(offer_call(HookDebt { topology: true, roots: false }), call(0, true, false));
    assert_eq!(offer_call(HookDebt { topology: false, roots: true }), call(0, false, true));
    assert_eq!(charge_call(marks), call(5, false, false));
}

#[test]
fn an_offer_nobody_owes_is_not_made() {
    let mut stand = Stand::new(|_, _| HANDLED);
    stand.publish(Some(0), false, false);
    let fired = stand.told.len();
    assert!(!stand.owed.any(), "the fixture needs a graph that owes the hook nothing");
    assert!(!stand.flush_hook_obligations());
    assert_eq!(stand.told.len(), fired, "an offer was made for a debt nobody owes");

    stand.record_hook_debt(HookDebt { topology: true, roots: false });
    assert!(stand.flush_hook_obligations());
    assert_eq!(stand.told.len(), fired + 1, "the offer that IS owed was never made");
}

/// The reply carrying the old number may not answer a revision raised while the offer was out.
#[test]
fn a_revision_raised_during_an_offer_survives_that_offers_reply() {
    let mut stand = Stand::new(|_, _| HANDLED);
    stand.publish(Some(0), false, false);
    stand.record_hook_debt(HookDebt { topology: true, roots: false });
    let offer = HookOffer::begin(&stand.inner)
        .reply(OfferReply::Claimed { revision: stand.revision, owed: stand.owed });
    // A second topology change, while the first offer is still out with the hook.
    stand.record_hook_debt(HookDebt { topology: true, roots: false });
    let offer = offer.reply(OfferReply::Outcome(HANDLED));
    let OfferAsk::Report { revision, handled } = offer.ask else { panic!("{offer:?}") };
    for step in offer_answered(revision, handled) {
        stand.step(step);
    }
    assert!(
        stand.owed.topology,
        "the reply to the old offer cleared the change raised after it",
    );
    assert!(stand.offer());
    assert!(!stand.owed.topology, "and the new revision was answered in its turn");
}

#[test]
fn a_publication_whose_hook_refuses_paces_the_next_offer() {
    let mut stand = Stand::new(|_, call| if call == 1 { HANDLED } else { REFUSED });
    stand.publish(Some(0), false, false);
    assert!(!stand.paced);

    let before = stand.told.len();
    stand.record_hook_debt(HookDebt { topology: true, roots: false });
    stand.drive();
    stand.drive();
    assert_eq!(
        stand.told.len() - before,
        1,
        "the executor asked a refusing hook again inside its own pause",
    );

    // The publication makes its own offer — that one is legitimate — and its refusal must leave
    // the same pause behind.
    stand.notify_published(false);
    assert_eq!(
        stand.told.len() - before,
        2,
        "the publication's refusal was free: the executor it drives asked again at once",
    );
    assert!(stand.owed.topology && stand.owed.roots);
}

#[test]
fn a_refusing_hook_is_paced_and_does_not_spin_the_executor() {
    let mut stand = Stand::new(|_, _| REFUSED);
    stand.inner.status = GraphStatus::Ready { files: 0 };
    stand.inner.published = Some(published(Some(0), false, false));
    stand.record_hook_debt(HookDebt { topology: true, roots: true });
    let latched = stand.drive();
    let asked = stand.told.len();
    assert_eq!(asked, 1, "one turn offered a refusing hook {asked} times");
    assert!(!latched, "a refusal latched a continuation, so the owner comes back with a zero wait");
    assert!(stand.owed.any(), "and the work is still owed");

    // Asked again at once: still paced, not offered.
    assert!(!stand.drive());
    assert_eq!(stand.told.len(), 1, "the refusal earned no pause at all");
    assert!(stand.owed.any(), "and the work is still owed");

    // What is raised anew is offered without a wait.
    stand.record_hook_debt(HookDebt { topology: true, roots: false });
    assert!(!stand.drive());
    assert_eq!(stand.told.len(), 2);
}

#[test]
fn a_topology_refresh_requested_before_the_engine_existed_is_flushed_afterwards() {
    let mut up = false;
    let mut calls = 0;
    let mut stand = Stand::new(move |_, _| {
        calls += 1;
        if calls > 1 {
            up = true;
        }
        GraphPublishOutcome { topology_handled: up, roots_handled: up }
    });
    stand.inner.status = GraphStatus::Ready { files: 0 };
    stand.inner.published = Some(published(Some(0), false, false));
    stand.notify_published(true);
    assert!(stand.owed.topology);
    assert!(stand.flush_hook_obligations());
    assert_eq!(stand.told.last(), Some(&(0, true, true)), "the request reaches the hook");
    assert!(!stand.owed.any());
}

#[test]
fn a_refusal_cannot_arm_a_topology_refresh_nobody_requested() {
    let mut stand = Stand::new(|_, _| GraphPublishOutcome {
        topology_handled: false,
        roots_handled: true,
    });
    stand.inner.status = GraphStatus::Ready { files: 0 };
    stand.inner.published = Some(published(Some(0), false, false));
    assert!(!stand.owed.topology, "the fixture starts with no topology owed");

    stand.notify_published(false);
    assert!(
        !stand.owed.topology,
        "a refusal reported for an unrequested refresh raises no obligation",
    );
    // The control: the same refusing hook does arm it when the refresh was requested.
    stand.notify_published(true);
    assert!(
        stand.owed.topology,
        "a refusal reported for a requested refresh keeps the obligation",
    );
}

#[test]
fn an_unhandled_topology_refresh_is_re_raised_on_the_next_publish() {
    let mut sightings = 0;
    let mut stand = Stand::new(move |(_, topology, _), _| {
        let topology_handled = if topology {
            sightings += 1;
            sightings > 1
        } else {
            true
        };
        GraphPublishOutcome { topology_handled, roots_handled: true }
    });
    stand.inner = Inner::disabled();
    stand.has_root = false;
    let seen = |stand: &Stand| stand.told.iter().filter(|(_, topology, _)| *topology).count();
    stand.notify_published(true);
    assert_eq!(seen(&stand), 1, "the request reaches the hook");
    stand.notify_published(false);
    assert_eq!(
        seen(&stand),
        2,
        "an unhandled topology refresh is re-raised even though this publish did not change it",
    );
    stand.notify_published(false);
    assert_eq!(seen(&stand), 2, "a handled request is not re-raised");
}

#[test]
fn topology_and_root_retry_obligations_are_independent() {
    let outcome = std::rc::Rc::new(std::cell::Cell::new(GraphPublishOutcome {
        topology_handled: false,
        roots_handled: true,
    }));
    let answer = std::rc::Rc::clone(&outcome);
    let mut stand = Stand::new(move |_, _| answer.get());
    stand.inner.status = GraphStatus::Ready { files: 0 };
    stand.inner.published = Some(published(Some(0), false, false));
    stand.notify_published(true);
    assert!(stand.owed.topology);
    assert!(!stand.owed.roots);

    outcome.set(GraphPublishOutcome { topology_handled: true, roots_handled: false });
    stand.flush_hook_obligations();
    assert!(!stand.owed.topology);
    stand.notify_published(false);
    assert!(stand.owed.roots);
    assert!(!stand.owed.topology);

    outcome.set(HANDLED);
    stand.flush_hook_obligations();
    assert!(!stand.owed.roots);
    assert!(
        stand.told.iter().any(|(_, topology, roots)| (*topology, *roots) == (false, true)),
        "root retry must not claim a topology change"
    );
}

#[test]
fn an_unowned_pass_fires_no_hook() {
    let mut stand = Stand::new(|_, _| HANDLED);
    stand.owns = false;
    stand.inner.status = GraphStatus::Ready { files: 0 };
    stand.inner.published = Some(published(Some(10), false, false));
    stand.placed.push((5, 8));
    stand.notify_published(true);
    assert!(stand.told.is_empty());
    assert!(stand.marks_owed, "the marks' obligation is settled all the same");
    assert!(!stand.flush_hook_obligations());
}

#[test]
fn leftover_consume_stays_armed_while_published_snapshot_is_stale() {
    let mut stand = Stand::new(|_, _| HANDLED);
    let mut stale = published(Some(0), true, false);
    stale.reload = ReloadState::Failed("catch-up failed".to_owned());
    stand.inner.status = GraphStatus::Ready { files: 1 };
    stand.inner.published = Some(stale);
    for step in consume_leftover_marks(false, 5) {
        stand.step(step);
    }
    assert_eq!(stand.told.len(), 0, "no consume against the stale snapshot");
    assert!(stand.marks_pending(), "the marks wait for the next successful publish");
}

#[test]
fn a_publication_that_could_not_read_everything_consumes_no_marks() {
    let mut stand = Stand::new(|_, _| HANDLED);
    stand.inner.status = GraphStatus::Ready { files: 1 };
    stand.inner.published = Some(published(Some(9), false, false));
    stand.owes_recovery = true;
    stand.marks_placed(41, 9);
    assert!(
        stand.marks_pending(),
        "marks were cleared against a graph that never read the files they name"
    );
    // And the publication that read everything takes them.
    stand.owes_recovery = false;
    stand.marks_placed(41, 9);
    assert!(!stand.marks_pending(), "a sound publication left the marks behind");
}

#[test]
fn marks_placed_during_a_build_are_consumed_by_its_publication() {
    let mut stand = Stand::new(|_, _| HANDLED);
    stand.inner.status = GraphStatus::Loading;
    stand.marks_placed(5, 8);
    assert!(stand.told.is_empty(), "nothing is published to consume against");
    assert!(!stand.marks_owed, "a build in flight owes nothing yet");

    stand.publish(Some(10), false, false);
    assert!(stand.consumed(5));
    assert!(!stand.marks_pending());
    assert!(!stand.marks_owed);
}

#[test]
fn marks_placed_after_an_observing_publication_are_consumed_at_once() {
    let mut stand = Stand::new(|_, _| HANDLED);
    stand.publish(Some(10), false, false);
    stand.marks_placed(5, 8);
    assert!(stand.consumed(5));
    assert!(!stand.marks_pending());
    assert!(!stand.marks_owed);
}

#[test]
fn marks_no_publication_observed_are_owed_a_build() {
    let mut stand = Stand::new(|_, _| HANDLED);
    stand.publish(Some(3), false, false);
    stand.marks_placed(5, 8);
    assert!(!stand.consumed(5), "consumed against a graph that never saw the fact");
    assert!(stand.marks_pending());
    assert!(stand.marks_owed, "no build is owed to the marks");

    stand.publish(Some(9), false, false);
    assert!(stand.consumed(5));
    assert!(!stand.marks_pending());
    assert!(!stand.marks_owed, "the obligation outlived the marks");
}

#[test]
fn straddled_and_stale_publications_consume_nothing() {
    let mut stand = Stand::new(|_, _| HANDLED);
    stand.publish(Some(10), false, true);
    stand.marks_placed(5, 8);
    assert!(!stand.consumed(5), "consumed against a straddled build");

    stand.publish(None, true, false);
    for step in consume_leftover_marks(false, 4) {
        stand.step(step);
    }
    assert!(!stand.consumed(4) && !stand.consumed(5), "consumed against a stale cache");
    assert!(stand.marks_pending());

    stand.publish(Some(8), false, false);
    assert!(stand.consumed(5), "the catch-up publication observed every placed fact");
    assert!(!stand.marks_pending());
}

#[derive(Clone, Copy, Debug, PartialEq)]
enum Step {
    Mark(i64, u64),
    Publish(u64),
    Nudge,
}

fn orders(rest: Vec<Step>, prefix: Vec<Step>, out: &mut Vec<Vec<Step>>) {
    if rest.is_empty() {
        out.push(prefix);
        return;
    }
    for i in 0..rest.len() {
        let (mut rest, mut prefix) = (rest.clone(), prefix.clone());
        prefix.push(rest.remove(i));
        orders(rest, prefix, out);
    }
}

#[test]
fn marks_are_consumed_by_an_observing_publication_in_every_order() {
    const MARKS: [(i64, u64); 2] = [(5, 4), (9, 12)];
    let steps = [
        Step::Mark(MARKS[0].0, MARKS[0].1),
        Step::Mark(MARKS[1].0, MARKS[1].1),
        Step::Publish(6),
        Step::Publish(14),
        Step::Nudge,
    ];
    let mut all = Vec::new();
    orders(steps.to_vec(), Vec::new(), &mut all);
    let consumer_order = |order: &Vec<Step>| {
        let at = |mark: (i64, u64)| order.iter().position(|s| *s == Step::Mark(mark.0, mark.1));
        at(MARKS[0]) < at(MARKS[1])
    };
    let all: Vec<_> = all.into_iter().filter(consumer_order).collect();
    assert_eq!(all.len(), 60);

    for order in all {
        let mut stand = Stand::new(|_, _| HANDLED);
        let mut current = 0;
        let mut offers: Vec<(i64, u64)> = Vec::new();
        let mut consuming: Option<u64> = None;
        let mut expected = [false; 2];
        let mut placed = [false; 2];
        for step in &order {
            let before = stand.told.len();
            match *step {
                Step::Mark(mark, fact) => {
                    let i = MARKS.iter().position(|m| *m == (mark, fact)).unwrap();
                    placed[i] = true;
                    expected[i] |= consuming.is_some_and(|observed| observed >= fact);
                    stand.marks_placed(mark, fact);
                }
                Step::Publish(observed) => {
                    current = observed;
                    consuming = Some(observed);
                    for (i, (_, fact)) in MARKS.iter().enumerate() {
                        expected[i] |= placed[i] && observed >= *fact;
                    }
                    stand.publish(Some(observed), false, false);
                }
                Step::Nudge => {
                    consuming = None;
                    stand.inner.status = GraphStatus::Loading;
                }
            }
            offers.extend(stand.told[before..].iter().map(|(bound, _, _)| (*bound, current)));
        }
        for (bound, observed) in offers {
            let allowed =
                MARKS.iter().filter(|(_, fact)| *fact <= observed).map(|(m, _)| *m).max();
            assert!(
                allowed.is_some_and(|allowed| bound <= allowed),
                "{order:?}: marks up to {bound} offered to a publication through {observed}"
            );
        }
        for (i, mark) in MARKS.iter().enumerate() {
            assert_eq!(
                !stand.placed.contains(mark),
                expected[i],
                "{order:?}: mark {mark:?}, left {:?}",
                stand.placed,
            );
        }
    }
}

#[test]
fn a_refused_consume_keeps_the_marks_for_the_next_publication() {
    let mut stand = Stand::new(|_, call| GraphPublishOutcome {
        topology_handled: call > 2,
        roots_handled: true,
    });
    stand.publish(Some(10), false, false);
    stand.marks_placed(5, 8);
    assert!(stand.consumed(5), "the marks were offered");
    assert!(stand.marks_pending(), "a refused consume dropped the marks");

    stand.publish(Some(10), false, false);
    assert_eq!(stand.told.iter().filter(|(bound, _, _)| *bound == 5).count(), 2);
    assert!(!stand.marks_pending(), "the next publication did not consume them");
}

/// A lease gone for good records nothing; one that cannot be confirmed right now keeps the marks.
#[test]
fn marks_survive_a_lease_that_cannot_be_confirmed() {
    assert_eq!(
        marks_placed(false, 7, 3),
        vec![
            GraphStep::PlaceMarks { mark_high: 7, fact: 3 },
            GraphStep::Wake,
            GraphStep::ConsumeObservedMarks,
            GraphStep::SettleMarks,
            GraphStep::Drive,
        ],
    );
    assert!(marks_placed(true, 7, 3).is_empty());
    assert!(consume_leftover_marks(true, 7).is_empty());
    let mut stand = Stand::new(|_, _| HANDLED);
    stand.owns = false;
    stand.marks_placed(7, 3);
    assert!(stand.marks_pending(), "the marks were dropped while the lease was busy");
    assert!(stand.marks_owed, "and nothing is owed to them");
}

#[test]
fn the_signal_carries_the_publication() {
    let mut inner = Inner::for_workspace();
    let call = HookCall { mark_bound: 3, topology_changed: true, roots_refresh_requested: false };
    let unpublished = inner.publish_signal(call);
    assert_eq!((unpublished.topology, unpublished.mark_bound), (0, 3));
    assert!(unpublished.topology_changed && !unpublished.roots_refresh_requested);
    assert!(unpublished.workspace_roots.is_none());

    let mut publication = published(Some(1), false, false);
    publication.reload = ReloadState::Running;
    publication.search_roots = Some(WorkspaceRoots { roots: vec![b"/ws".to_vec()] });
    inner.published = Some(publication);
    let signal = inner.publish_signal(pass_call(false, None));
    assert!(signal.drift_pending);
    assert_eq!(signal.topology, 6);
    assert_eq!(signal.workspace_roots.unwrap().roots, vec![b"/ws".to_vec()]);
}

#[test]
fn an_offer_waits_for_the_build_on_its_way() {
    let mut inner = Inner::for_workspace();
    inner.status = GraphStatus::Loading;
    assert_eq!(HookOffer::begin(&inner).ask, OfferAsk::Done { acted: false });
}

#[test]
fn a_graph_without_a_hook_has_everything_taken() {
    assert_eq!(GraphPublishOutcome::handled(), HANDLED);
}

/// A quiet recording leaves the record of the deciding one, and decides nothing.
#[test]
fn a_quiet_recording_decides_nothing() {
    assert_eq!(record_change_quietly(4), vec![GraphStep::RecordChange(4), GraphStep::Wake]);
    assert_eq!(
        record_change(4),
        vec![GraphStep::RecordChange(4), GraphStep::Wake, GraphStep::Drive],
    );
    assert_eq!(
        record_forced(5),
        vec![GraphStep::RecordForced(5), GraphStep::Wake, GraphStep::Drive],
    );
    let lost = GraphStep::RecordLoss { token: Some(7), fact: 3, horizon: true };
    assert_eq!(record_loss_quietly(Some(7), 3, true), vec![lost, GraphStep::Wake]);
    assert_eq!(record_loss(Some(7), 3, true), vec![lost, GraphStep::Wake, GraphStep::Drive]);
    let anonymous = GraphStep::RecordLoss { token: None, fact: 3, horizon: false };
    assert_eq!(record_loss_quietly(None, 3, true), vec![anonymous, GraphStep::Wake]);
    let unheard = GraphStep::RecordLoss { token: Some(7), fact: 3, horizon: false };
    assert_eq!(record_loss_quietly(Some(7), 3, false), vec![unheard, GraphStep::Wake]);
}

/// The watcher's first observation is a level, and not a delivery.
#[test]
fn initial_observation_is_not_a_new_failure_credit() {
    assert_eq!(observe_current_level(12), vec![GraphStep::ObserveLevel(12), GraphStep::Wake]);
    assert_eq!(note_request(true), vec![GraphStep::Wake]);
    assert!(note_request(false).is_empty());
}

#[test]
fn a_graph_without_a_hub_has_observed_everything() {
    assert_eq!(observation(Some(4)), 4);
    assert_eq!(observation(None), u64::MAX);
}

/// The publication gate, taken the way an executor's turn takes it.
fn offer_owner(gate: &Mutex<()>) -> Option<MutexGuard<'_, ()>> {
    claim_hook_offer(gate.try_lock().map_err(|refusal| match refusal {
        TryLockError::Poisoned(poison) => LockRefusal::Poisoned(poison.into_inner()),
        TryLockError::WouldBlock => LockRefusal::WouldBlock,
    }))
}

/// One executor's turn while somebody may own the offer: how often the hook was fired by it.
fn turn(stand: &mut Stand, gate: &Mutex<()>) -> usize {
    let before = stand.told.len();
    if let Some(_owner) = offer_owner(gate) {
        stand.offer();
    }
    stand.told.len() - before
}

#[test]
fn two_executor_turns_offer_one_hook_revision_once() {
    let gate = Mutex::new(());
    let mut stand = Stand::new(|_, _| HANDLED);
    stand.publish(Some(0), false, false);
    stand.record_hook_debt(HookDebt { topology: true, roots: false });
    let fires = stand.told.len();

    // The first turn is inside the hook while the second one runs to completion.
    let owner = offer_owner(&gate).expect("nobody owns the offer yet");
    let first = HookOffer::begin(&stand.inner)
        .reply(OfferReply::Claimed { revision: stand.revision, owed: stand.owed });
    let OfferAsk::Fire { call, .. } = first.ask else {
        panic!("the first turn never reached the hook");
    };
    let outcome = stand.fire(call);
    assert_eq!(turn(&mut stand, &gate), 0, "two executor turns fired the hook for one revision");
    let OfferAsk::Report { revision, handled } = first.reply(OfferReply::Outcome(outcome)).ask
    else {
        panic!("the first turn lost its reply");
    };
    for step in offer_answered(revision, handled) {
        stand.step(step);
    }
    drop(owner);

    assert_eq!(stand.told.len() - fires, 1);
    assert_eq!(turn(&mut stand, &gate), 0, "an answered revision was offered again");
}

#[test]
fn a_hook_that_drives_the_graph_back_is_not_offered_the_same_revision_again() {
    let gate = Mutex::new(());
    let mut stand = Stand::new(|_, _| HANDLED);
    stand.publish(Some(0), false, false);
    stand.record_hook_debt(HookDebt { topology: true, roots: false });
    let fires = stand.told.len();

    let owner = offer_owner(&gate).expect("nobody owns the offer yet");
    stand.fire(offer_call(HookDebt { topology: true, roots: false }));
    // The hook drives the graph from inside its own callback, on the thread that owns the offer.
    assert_eq!(turn(&mut stand, &gate), 0);
    drop(owner);
    assert_eq!(
        stand.told.len() - fires,
        1,
        "the hook was offered the revision it was already answering",
    );
}

#[test]
fn an_executor_turn_during_a_publish_pass_offers_nothing() {
    let gate = Mutex::new(());
    let mut stand = Stand::new(|_, _| HANDLED);
    stand.publish(Some(0), false, false);
    let fires = stand.told.len();

    let pass = PublishPass::begin(false).reply(PassReply::Owns(true));
    let owner = offer_owner(&gate).expect("the pass owns the offer");
    let pass = pass
        .reply(PassReply::Claimed { revision: stand.revision, owed: stand.owed })
        .reply(PassReply::Observed(stand.inner.consuming_observation(false)))
        .reply(PassReply::Bound(None));
    let PassAsk::Fire { call, .. } = pass.ask else { panic!("{pass:?}") };
    let outcome = stand.fire(call);
    // Raised while the pass owns the offer, and taken by nobody until it returns.
    stand.record_hook_debt(HookDebt { topology: true, roots: false });
    assert_eq!(
        turn(&mut stand, &gate),
        0,
        "an executor turn fired the hook while the publish pass owned the offer",
    );
    let pass = pass.reply(PassReply::Outcome(outcome));
    let PassAsk::Report { revision, topology, marks, outcome } = pass.ask else {
        panic!("{pass:?}")
    };
    for step in pass_answered(revision, topology, marks, outcome) {
        stand.step(step);
    }
    drop(owner);
    assert_eq!(pass.reply(PassReply::Finished).ask, PassAsk::SettleAndDrive);

    // And what it raised is not lost: the pass's own trailing turn offers it.
    assert_eq!(turn(&mut stand, &gate), 1);
    assert_eq!(
        stand.told.len() - fires,
        2,
        "the bits raised during the pass were never offered",
    );
    assert!(!stand.owed.topology, "and the offer that followed was taken");
}

#[test]
fn unhandled_marks_read_pending_inside_and_after_the_pass() {
    const LEFTOVER_BOUND: i64 = 41;
    let mut stand = Stand::new(|_, _| REFUSED);
    stand.inner.status = GraphStatus::Ready { files: 0 };
    stand.inner.published = Some(published(Some(0), false, false));
    stand.placed.push((LEFTOVER_BOUND, 0));
    stand.notify_published(false);
    assert!(stand.consumed(LEFTOVER_BOUND), "the pass reached its consume");
    assert!(stand.marks_pending(), "an unhandled consume dropped the marks");
    assert!(stand.marks_owed, "nothing is on its way to consume them, so a build is owed");
}

#[test]
fn publish_hook_fires_after_a_build_publishes() {
    let mut stand = Stand::new(|_, _| HANDLED);
    stand.inner.adopt_prebuilt(1, GraphFp { files: 2, topology: 6 }, 2, None, 4);
    assert_eq!(stand.told.len(), 0, "the status reached Ready while the publish hook had not run");
    stand.notify_published(false);
    assert_eq!(stand.told, vec![(0, false, true)]);
}

#[test]
fn superseded_late_publish_is_fenced() {
    let mut stand = Stand::new(|_, _| HANDLED);
    stand.inner.status = GraphStatus::Ready { files: 0 };
    stand.inner.published = Some(published(Some(0), false, false));
    stand.record_hook_debt(HookDebt { topology: true, roots: false });
    stand.record_hook_debt(HookDebt { topology: false, roots: true });
    stand.placed.push((41, 0));
    // A newer generation has taken the workspace.
    stand.owns = false;
    stand.notify_published(true);
    assert!(!stand.flush_hook_obligations());
    assert!(!stand.flush_hook_obligations());
    assert!(consume_leftover_marks(true, 99).is_empty());

    assert_eq!(stand.told.len(), 0, "no late hook may apply its prepared plan");
    assert!(stand.owed.topology);
    assert!(stand.owed.roots);
    assert!(stand.marks_pending(), "a superseded graph consumes nothing");
    assert_eq!(stand.placed, vec![(41, 0)], "and records none of what it cannot consume");
}

/// Fresh marks wake the watcher, and so does a build newly owed to them.
#[test]
fn marks_that_revive_a_spent_obligation_wake_the_watcher() {
    assert_eq!(marks_placed(false, 9, 12)[1], GraphStep::Wake, "the watcher sleeps on");
    assert_eq!(marks_settled(true), vec![GraphStep::Wake]);
    assert!(marks_settled(false).is_empty());
}

/// A mark above a publication's bound that it did not observe is not taken with those below it.
#[test]
fn a_charge_leaves_what_it_did_not_observe() {
    let mut stand = Stand::new(|_, _| HANDLED);
    stand.placed = vec![(5, 4), (3, 9), (7, 4), (9, 12)];
    stand.publish(Some(6), false, false);
    assert_eq!(stand.told, vec![(7, false, true)]);
    assert_eq!(stand.placed, vec![(3, 9), (9, 12)]);
}
