//! What is handed over between the graph's owners, and what is kept of it.
//!
//! Each law speaks of whatever an operation answers and leaves behind: the steps an entry of the
//! intake leads to, the flags one owner leaves for another, the comparison's cursor, the hold of a
//! first build, the advisory, the locks and the bounded waits.

use crate::advisory::{AdvisoryOwner, StandaloneNotice};
use crate::bounded_wait::{load_verdict, wait_step, LoadVerdict, WaitStep};
use crate::cursor::{ScanCursorSlot, SinkCursor};
use crate::first_build_hold::{holds_unconsulted, FirstBuildHold};
use crate::inner::Inner;
use crate::intake::{
    consume_leftover_marks, hold_decision, marks_placed, marks_settled, note_request, observation,
    observe_current_level, record_change, record_change_quietly, record_forced,
    record_forced_quietly, record_loss, record_loss_quietly, GraphStep,
};
use crate::locks::{claim_hook_offer, lock_recover, LockRefusal};
use crate::signals::Signals;
use crate::types::WatchPhase;
use vstd::prelude::*;

verus! {

/// A build reads the hub's own position; a graph without a hub has no stream to fall behind.
pub proof fn law_a_build_reads_the_hubs_position(
    hub_position: u64,
    with_hub: u64,
    without_hub: u64,
    fact: u64,
)
    requires
        call_ensures(observation, (Some(hub_position),), with_hub),
        call_ensures(observation, (None,), without_hub),
    ensures
        with_hub == hub_position,
        fact <= without_hub,
{
}

/// What is told is recorded under its own fact first and the watcher is woken right after; told
/// quietly, that is all, and told aloud, it is decided at once after the very same record.
pub proof fn law_telling_aloud_decides_what_telling_quietly_records(
    fact: u64,
    token: Option<u64>,
    has_hub: bool,
    change: Vec<GraphStep>,
    quiet_change: Vec<GraphStep>,
    forced: Vec<GraphStep>,
    quiet_forced: Vec<GraphStep>,
    loss: Vec<GraphStep>,
    quiet_loss: Vec<GraphStep>,
)
    requires
        call_ensures(record_change, (fact,), change),
        call_ensures(record_change_quietly, (fact,), quiet_change),
        call_ensures(record_forced, (fact,), forced),
        call_ensures(record_forced_quietly, (fact,), quiet_forced),
        call_ensures(record_loss, (token, fact, has_hub), loss),
        call_ensures(record_loss_quietly, (token, fact, has_hub), quiet_loss),
    ensures
        quiet_change@ == seq![GraphStep::RecordChange(fact), GraphStep::Wake],
        quiet_forced@ == seq![GraphStep::RecordForced(fact), GraphStep::Wake],
        quiet_loss@ == seq![
            GraphStep::RecordLoss { token, fact, horizon: has_hub && token is Some },
            GraphStep::Wake,
        ],
        change@ == quiet_change@.push(GraphStep::Drive),
        forced@ == quiet_forced@.push(GraphStep::Drive),
        loss@ == quiet_loss@.push(GraphStep::Drive),
{
    assert(change@ =~= quiet_change@.push(GraphStep::Drive));
    assert(forced@ =~= quiet_forced@.push(GraphStep::Drive));
    assert(loss@ =~= quiet_loss@.push(GraphStep::Drive));
}

/// A level and a hold are recorded and the watcher is woken, and a request that pulled a probe
/// forward, or marks that newly owe a build, wake it alone; none of them decides anything.
pub proof fn law_a_level_and_a_hold_wake_the_watcher(
    level: u64,
    leveled: Vec<GraphStep>,
    held: Vec<GraphStep>,
    moved: bool,
    noted: Vec<GraphStep>,
    settled: Vec<GraphStep>,
)
    requires
        call_ensures(observe_current_level, (level,), leveled),
        call_ensures(hold_decision, (), held),
        call_ensures(note_request, (moved,), noted),
        call_ensures(marks_settled, (moved,), settled),
    ensures
        leveled@ == seq![GraphStep::ObserveLevel(level), GraphStep::Wake],
        held@ == seq![GraphStep::Hold, GraphStep::Wake],
        moved ==> noted@ == seq![GraphStep::Wake] && settled@ == seq![GraphStep::Wake],
        !moved ==> noted@.len() == 0 && settled@.len() == 0,
{
}

/// Marks are placed under their own bound and fact on every graph whose lease is not gone for good,
/// and those observed are consumed and the rest settled before anything is decided. Those of a
/// prior run stand before every fact.
pub proof fn law_marks_are_placed_before_they_are_consumed(
    terminal: bool,
    mark_high: i64,
    fact: u64,
    placed: Vec<GraphStep>,
    leftover: Vec<GraphStep>,
    at_the_start: Vec<GraphStep>,
)
    requires
        call_ensures(marks_placed, (terminal, mark_high, fact), placed),
        call_ensures(consume_leftover_marks, (terminal, mark_high), leftover),
        call_ensures(marks_placed, (terminal, mark_high, 0), at_the_start),
    ensures
        terminal ==> placed@.len() == 0,
        !terminal ==> placed@ == seq![
            GraphStep::PlaceMarks { mark_high, fact },
            GraphStep::Wake,
            GraphStep::ConsumeObservedMarks,
            GraphStep::SettleMarks,
            GraphStep::Drive,
        ],
        leftover@ == at_the_start@,
{
    assert(leftover@ =~= at_the_start@);
}

/// Two sets of signals that differ in the counter and the latch alone.
pub open spec fn same_but_for_the_wait(a: Signals, b: Signals) -> bool {
    &&& a.first_build_asked == b.first_build_asked
    &&& a.first_build_kick == b.first_build_kick
    &&& a.claims == b.claims
}

/// A wake moves the counter past whatever a waiter sampled of it and touches nothing else; a latch
/// does that and stays until it is taken.
pub proof fn law_a_wake_is_seen_by_every_sample(woken: &mut Signals, latched: &mut Signals)
    requires
        call_ensures(Signals::wake_watcher, (woken,), ()),
        call_ensures(Signals::latch_continuation, (latched,), ()),
    ensures
        final(woken).alarms != old(woken).alarms,
        final(woken).alarms == old(woken).alarms + 1 || old(woken).alarms == u64::MAX,
        final(woken).continuation == old(woken).continuation,
        same_but_for_the_wait(*final(woken), *old(woken)),
        final(latched).alarms != old(latched).alarms,
        final(latched).continuation,
        same_but_for_the_wait(*final(latched), *old(latched)),
{
}

/// A latch is taken once: whoever takes it hears whether it was there, and leaves none behind and
/// everything else as it was.
pub proof fn law_a_latch_is_taken_once(
    signals: &mut Signals,
    latched: bool,
    read: &Signals,
    pending: bool,
)
    requires
        call_ensures(Signals::take_continuation, (signals,), latched),
        call_ensures(Signals::continuation_pending, (read,), pending),
    ensures
        latched == old(signals).continuation,
        !final(signals).continuation,
        final(signals).alarms == old(signals).alarms,
        same_but_for_the_wait(*final(signals), *old(signals)),
        pending == read.continuation,
{
}

/// A wait is over exactly where the counter moved, a latch is up or the owner is leaving.
pub proof fn law_a_wait_is_over_for_three_reasons(
    signals: &Signals,
    sampled: u64,
    leaving: bool,
    over: bool,
)
    requires
        call_ensures(Signals::wait_is_over, (signals, sampled, leaving), over),
    ensures
        over <==> signals.alarms != sampled || signals.continuation || leaving,
{
}

/// Every admission gets a number above all those given out before it, and nothing else moves.
pub proof fn law_an_admission_gets_a_number_of_its_own(
    signals: &mut Signals,
    claim: u64,
    given: u64,
)
    requires
        old(signals).claims < u64::MAX,
        given <= old(signals).claims,
        call_ensures(Signals::next_claim_id, (signals,), claim),
    ensures
        claim > given,
        claim == old(signals).claims + 1,
        final(signals).claims == claim,
        final(signals).alarms == old(signals).alarms,
        final(signals).continuation == old(signals).continuation,
        final(signals).first_build_asked == old(signals).first_build_asked,
        final(signals).first_build_kick == old(signals).first_build_kick,
{
}

/// A request leaves its ask exactly where a first build could be claimed, latched and counted so
/// that no wait sleeps through it; elsewhere it leaves everything as it was.
pub proof fn law_a_request_asks_where_a_build_could_be_claimed(
    signals: &mut Signals,
    inner: &Inner,
    made: bool,
)
    requires
        call_ensures(Signals::ensure_first_build, (signals, inner), made),
    ensures
        made <==> (inner.status is Idle || inner.status is Failed) && inner.claimed is None
            && inner.building is None,
        made ==> {
            &&& final(signals).first_build_asked
            &&& final(signals).continuation
            &&& final(signals).alarms != old(signals).alarms
            &&& final(signals).first_build_kick == old(signals).first_build_kick
            &&& final(signals).claims == old(signals).claims
        },
        !made ==> *final(signals) == *old(signals),
{
}

/// An ask put back is there to be taken, and is taken once: whoever takes it hears whether it was
/// there and leaves none behind.
pub proof fn law_an_ask_is_taken_once(
    back: &mut Signals,
    signals: &mut Signals,
    asked: bool,
)
    requires
        call_ensures(Signals::put_back_first_build_ask, (back,), ()),
        call_ensures(Signals::take_first_build_ask, (signals,), asked),
    ensures
        final(back).first_build_asked,
        same_but_for_the_ask(*final(back), *old(back)),
        asked == old(signals).first_build_asked,
        !final(signals).first_build_asked,
        same_but_for_the_ask(*final(signals), *old(signals)),
{
}

/// Two sets of signals that differ in the ask alone.
pub open spec fn same_but_for_the_ask(a: Signals, b: Signals) -> bool {
    &&& a.alarms == b.alarms
    &&& a.continuation == b.continuation
    &&& a.first_build_kick == b.first_build_kick
    &&& a.claims == b.claims
}

/// A kick is taken exactly where the daemon stays, no watcher runs and none is in flight; letting it
/// go says whether an ask is still there and takes none away.
pub proof fn law_a_kick_is_taken_where_nobody_else_carries(
    taking: &mut Signals,
    stopped: bool,
    phase: WatchPhase,
    taken: bool,
    ending: &mut Signals,
    again: bool,
)
    requires
        call_ensures(Signals::begin_kick, (taking, stopped, phase), taken),
        call_ensures(Signals::end_kick, (ending,), again),
    ensures
        taken <==> !stopped && !(phase is Running) && !old(taking).first_build_kick,
        final(taking).first_build_kick == (old(taking).first_build_kick || taken),
        final(taking).first_build_asked == old(taking).first_build_asked,
        final(taking).alarms == old(taking).alarms,
        final(taking).continuation == old(taking).continuation,
        final(taking).claims == old(taking).claims,
        again == old(ending).first_build_asked,
        final(ending).first_build_asked == old(ending).first_build_asked,
        !final(ending).first_build_kick,
        final(ending).alarms == old(ending).alarms,
        final(ending).continuation == old(ending).continuation,
        final(ending).claims == old(ending).claims,
{
}

/// A fresh graph has handed nothing over.
pub proof fn law_fresh_signals_hand_nothing_over(signals: Signals)
    requires
        call_ensures(Signals::new, (), signals),
    ensures
        signals.alarms == 0 && signals.claims == 0,
        !signals.continuation && !signals.first_build_asked && !signals.first_build_kick,
{
}

/// A slot nothing was ever subscribed for is open and holds nothing.
pub proof fn law_a_fresh_slot_is_open_and_empty(slot: ScanCursorSlot)
    requires
        call_ensures(ScanCursorSlot::default, (), slot),
    ensures
        slot@.cursor is None && !slot@.closed && slot@.epoch == 0,
{
}

/// An open slot hands out the cursor it holds, under its own epoch, and subscribes one only where it
/// holds none; the first subscription begins a new epoch. A closed slot hands out nothing.
pub proof fn law_a_slot_subscribes_once<F: FnOnce() -> SinkCursor>(
    slot: &mut ScanCursorSlot,
    subscribe: F,
    opened: Option<(SinkCursor, u64)>,
)
    requires
        call_ensures(ScanCursorSlot::open::<F>, (slot, subscribe), opened),
    ensures
        opened is None <==> old(slot)@.closed,
        opened is None ==> final(slot)@ == old(slot)@,
        opened matches Some((cursor, epoch)) ==> {
            &&& final(slot)@.cursor == Some(cursor)
            &&& final(slot)@.epoch == epoch
            &&& !final(slot)@.closed
            &&& old(slot)@.cursor matches Some(before) ==> before == cursor && epoch
                == old(slot)@.epoch
            &&& old(slot)@.cursor is None ==> subscribe.ensures((), cursor)
            &&& old(slot)@.cursor is None && old(slot)@.epoch < u64::MAX ==> epoch
                == old(slot)@.epoch + 1
        },
{
}

/// A position is stored exactly where the slot is open and has not moved on, and a refused one
/// leaves the slot as it is. Closing hands back what is held and keeps nothing, for good.
pub proof fn law_a_position_is_stored_only_under_its_epoch(
    slot: &mut ScanCursorSlot,
    epoch: u64,
    reached: SinkCursor,
    stored: bool,
    closing: &mut ScanCursorSlot,
    held: Option<SinkCursor>,
)
    requires
        call_ensures(ScanCursorSlot::advance, (slot, epoch, reached), stored),
        call_ensures(ScanCursorSlot::close, (closing,), held),
    ensures
        stored <==> !old(slot)@.closed && old(slot)@.epoch == epoch,
        stored ==> final(slot)@.cursor == Some(reached),
        !stored ==> final(slot)@.cursor == old(slot)@.cursor,
        final(slot)@.epoch == old(slot)@.epoch && final(slot)@.closed == old(slot)@.closed,
        held == old(closing)@.cursor,
        final(closing)@.closed && final(closing)@.cursor is None,
        final(closing)@.epoch == old(closing)@.epoch,
{
}

/// What a slot says of itself is what it holds, and a closed one holds nothing.
pub proof fn law_a_slot_says_what_it_holds(
    slot: &ScanCursorSlot,
    peeked: Option<SinkCursor>,
    closed: bool,
    held: Option<SinkCursor>,
)
    requires
        call_ensures(ScanCursorSlot::peek, (slot,), peeked),
        call_ensures(ScanCursorSlot::is_closed, (slot,), closed),
        call_ensures(ScanCursorSlot::holds, (slot,), held),
    ensures
        peeked == slot@.cursor,
        closed == slot@.closed,
        held == slot@.cursor,
        closed ==> held is None,
{
}

/// One boot arms one hold: a second one leaves the first as it is. The first build is held exactly
/// where a hold was armed and the claim was granted, and the end of the boot says so and disarms.
pub proof fn law_one_boot_holds_one_first_build<F: FnOnce() -> bool>(
    arming: &mut FirstBuildHold,
    armed: bool,
    holding: &mut FirstBuildHold,
    claim: F,
    ending: &mut FirstBuildHold,
    held: bool,
)
    requires
        call_ensures(FirstBuildHold::arm, (arming,), armed),
        call_ensures(FirstBuildHold::hold_the_first_build::<F>, (holding, claim), ()),
        call_ensures(FirstBuildHold::take, (ending,), held),
    ensures
        armed <==> *old(arming) is Unarmed,
        armed ==> *final(arming) is Armed,
        !armed ==> *final(arming) == *old(arming),
        !(*old(holding) is Armed) ==> *final(holding) == *old(holding),
        *old(holding) is Armed ==> (*final(holding) is Held && claim.ensures((), true)) || (
        *final(holding) is Armed && claim.ensures((), false)),
        held <==> *old(ending) is Held,
        *final(ending) is Unarmed,
{
}

/// A held graph is one that loads with nothing published.
pub proof fn law_a_held_graph_loads_unpublished(inner: &Inner, has_snapshot: bool, holds: bool)
    requires
        call_ensures(holds_unconsulted, (inner, has_snapshot), holds),
    ensures
        holds <==> inner.status is Loading && !has_snapshot,
{
}

/// An advisory that is there is kept with what the project says, and handed back as abandoned; where
/// there is none, none appears.
pub proof fn law_an_advisory_is_kept_or_abandoned<F: FnOnce() -> Option<String>>(
    refreshed: &mut AdvisoryOwner,
    derive: F,
    left: &mut AdvisoryOwner,
)
    requires
        call_ensures(AdvisoryOwner::refresh::<F>, (refreshed, derive), ()),
        call_ensures(AdvisoryOwner::leave, (left,), ()),
    ensures
        final(refreshed).slot is Some <==> old(refreshed).slot is Some,
        old(refreshed).slot is Some ==> exists|notice: Option<String>| #[trigger]
            derive.ensures((), notice) && final(refreshed).slot == Some(
                StandaloneNotice::Kept(notice),
            ),
        final(left).slot is Some <==> old(left).slot is Some,
        old(left).slot is Some ==> final(left).slot == Some(StandaloneNotice::Abandoned),
{
}

/// A lock gives its guard, poisoned or not; the hook's is not waited for, and refused only where
/// somebody else holds it.
pub proof fn law_a_poisoned_lock_is_still_taken<G>(
    clean: G,
    poisoned: G,
    of_clean: G,
    of_poisoned: G,
    offered: Option<G>,
    offered_poisoned: Option<G>,
    blocked: Option<G>,
)
    requires
        call_ensures(lock_recover::<G>, (Ok(clean),), of_clean),
        call_ensures(lock_recover::<G>, (Err(poisoned),), of_poisoned),
        call_ensures(claim_hook_offer::<G>, (Ok(clean),), offered),
        call_ensures(
            claim_hook_offer::<G>,
            (Err(LockRefusal::Poisoned(poisoned)),),
            offered_poisoned,
        ),
        call_ensures(claim_hook_offer::<G>, (Err(LockRefusal::WouldBlock),), blocked),
    ensures
        of_clean == clean,
        of_poisoned == poisoned,
        offered == Some(clean),
        offered_poisoned == Some(poisoned),
        blocked is None,
{
}

/// A wait looks at its condition before the clock: one that holds is met however late it is, one
/// that does not times out at its deadline, and before it is looked at again after ten milliseconds.
pub proof fn law_a_wait_looks_at_its_condition_first(
    holds: bool,
    now: u64,
    deadline: u64,
    step: WaitStep,
)
    requires
        call_ensures(wait_step, (holds, now, deadline), step),
    ensures
        step is Met <==> holds,
        step is TimedOut <==> !holds && now >= deadline,
        step == WaitStep::Sleep(10_000_000) <==> !holds && now < deadline,
{
}

/// A wait for a graph goes on exactly while the graph is neither published nor failed.
pub proof fn law_a_load_is_awaited_until_it_ends(inner: &Inner, verdict: LoadVerdict)
    requires
        call_ensures(load_verdict, (inner,), verdict),
    ensures
        verdict is Ready <==> inner.status is Ready,
        verdict is Failed <==> inner.status is Failed,
        verdict is Pending <==> inner.status is Idle || inner.status is Loading || inner.status
            is Disabled,
{
}

} // verus!
