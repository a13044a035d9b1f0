//! What the watcher does with what the hub tells it, reply by reply.
//!
//! Each law speaks of whatever an operation of the watcher answers: what a batch is recorded as and
//! in which order, how long a wait is, what a watcher asks for next, and what one that leaves or
//! never began gives back.

use crate::intake::GraphStep;
use crate::watcher::{
    alarm_wait, apply, apply_rescan, drain, leaves_without_asking_the_hub, must_leave, Batch,
    Checkpoint, StartAsk, StartReply, WatchAsk, WatchReply, WatchStep, Watcher, WatcherStart,
};
use vstd::prelude::*;

verus! {

/// The step comes, and comes before the batch is given back.
pub open spec fn comes_before_the_acknowledgement(
    steps: Seq<WatchStep>,
    step: WatchStep,
) -> bool {
    exists|i: int|
        0 <= i < steps.len() - 1 && #[trigger] steps[i] == step && steps[steps.len() - 1]
            == WatchStep::Acknowledge
}

/// No step of the sequence is a recording but those of these three.
pub open spec fn records_only(
    steps: Seq<WatchStep>,
    forced: WatchStep,
    change: WatchStep,
    loss: WatchStep,
) -> bool {
    forall|i: int|
        0 <= i < steps.len() ==> match #[trigger] steps[i] {
            WatchStep::Graph(GraphStep::Wake) => true,
            WatchStep::Graph(_) => steps[i] == forced || steps[i] == change || steps[i] == loss,
            _ => true,
        }
}

/// Of every batch, an input of the project is recorded as a change no comparison answers exactly
/// where the batch holds one, a touched universe as a change exactly where it is touched, and lost
/// detail as a loss, with the batch's own token and fact, exactly where detail was lost. Nothing
/// else is recorded, each recording wakes the watcher at once, and all of it is done before the
/// batch is given back.
pub proof fn law_a_batch_is_recorded_before_it_is_given_back(
    batch: Batch,
    has_hub: bool,
    steps: Vec<WatchStep>,
)
    requires
        call_ensures(drain, (batch, has_hub), steps),
    ensures
        ({
            let forced = WatchStep::Graph(GraphStep::RecordForced(batch.fact));
            let change = WatchStep::Graph(GraphStep::RecordChange(batch.fact));
            let loss = WatchStep::Graph(
                GraphStep::RecordLoss {
                    token: batch.loss_token,
                    fact: batch.fact,
                    horizon: has_hub && batch.loss_token is Some,
                },
            );
            let detailed = batch.has_entries && !batch.rescan_required;
            &&& comes_before_the_acknowledgement(steps@, forced) <==> detailed && batch.project
            &&& comes_before_the_acknowledgement(steps@, change) <==> detailed && batch.universe
            &&& comes_before_the_acknowledgement(steps@, loss) <==> batch.rescan_required
            &&& records_only(steps@, forced, change, loss)
            &&& steps@.contains(forced) <==> detailed && batch.project
            &&& steps@.contains(change) <==> detailed && batch.universe
            &&& steps@.contains(loss) <==> batch.rescan_required
            &&& steps@.contains(WatchStep::RefreshAdvisory) <==> batch.rescan_required || (detailed
                && batch.project)
        }),
        forall|i: int|
            0 <= i < steps@.len() && (#[trigger] steps@[i] matches WatchStep::Graph(step)
                && step != GraphStep::Wake) ==> i + 1 < steps@.len() && steps@[i + 1]
                == WatchStep::Graph(GraphStep::Wake),
        forall|i: int|
            0 <= i < steps@.len() ==> (#[trigger] steps@[i] == WatchStep::Acknowledge <==> i
                == steps@.len() - 1),
{
    let s = steps@;
    let forced = WatchStep::Graph(GraphStep::RecordForced(batch.fact));
    let change = WatchStep::Graph(GraphStep::RecordChange(batch.fact));
    let wake = WatchStep::Graph(GraphStep::Wake);
    law_a_batch_leads_to_these_steps(batch, has_hub, steps);
    if batch.rescan_required {
        assert(s[0] is Graph && s[2] == WatchStep::RefreshAdvisory);
    } else if batch.has_entries && batch.universe && batch.project {
        assert(s[0] == change && s[2] == forced && s[4] == WatchStep::RefreshAdvisory);
    } else if batch.has_entries && batch.universe {
        assert(s[0] == change);
    } else if batch.has_entries && batch.project {
        assert(s[0] == forced && s[2] == WatchStep::RefreshAdvisory);
    }
    assert(s[s.len() - 1] == WatchStep::Acknowledge);
}

/// The whole of what a batch leads to, in order: a loss alone where detail was lost, else the
/// change before the forced one, each with its wake, and the advisory wherever the config may have
/// moved.
pub proof fn law_a_batch_leads_to_these_steps(batch: Batch, has_hub: bool, steps: Vec<WatchStep>)
    requires
        call_ensures(drain, (batch, has_hub), steps),
    ensures
        batch.rescan_required ==> steps@ == seq![
            WatchStep::Graph(
                GraphStep::RecordLoss {
                    token: batch.loss_token,
                    fact: batch.fact,
                    horizon: has_hub && batch.loss_token is Some,
                },
            ),
            WatchStep::Graph(GraphStep::Wake),
            WatchStep::RefreshAdvisory,
            WatchStep::Acknowledge,
        ],
        !batch.rescan_required && batch.has_entries && batch.universe && batch.project ==> steps@
            == seq![
            WatchStep::Graph(GraphStep::RecordChange(batch.fact)),
            WatchStep::Graph(GraphStep::Wake),
            WatchStep::Graph(GraphStep::RecordForced(batch.fact)),
            WatchStep::Graph(GraphStep::Wake),
            WatchStep::RefreshAdvisory,
            WatchStep::Acknowledge,
        ],
        !batch.rescan_required && batch.has_entries && batch.universe && !batch.project ==> steps@
            == seq![
            WatchStep::Graph(GraphStep::RecordChange(batch.fact)),
            WatchStep::Graph(GraphStep::Wake),
            WatchStep::Acknowledge,
        ],
        !batch.rescan_required && batch.has_entries && !batch.universe && batch.project ==> steps@
            == seq![
            WatchStep::Graph(GraphStep::RecordForced(batch.fact)),
            WatchStep::Graph(GraphStep::Wake),
            WatchStep::RefreshAdvisory,
            WatchStep::Acknowledge,
        ],
        !batch.rescan_required && (!batch.has_entries || (!batch.universe && !batch.project))
            ==> steps@ == seq![WatchStep::Acknowledge],
{
}

/// Entries are recorded for what they touch, wherever they are applied from: the universe's change
/// and the project's forced one do not stand in for each other.
pub proof fn law_entries_are_recorded_for_what_they_touch(
    fact: u64,
    both: Vec<WatchStep>,
    universe_alone: Vec<WatchStep>,
    project_alone: Vec<WatchStep>,
    neither: Vec<WatchStep>,
)
    requires
        call_ensures(apply, (true, true, fact), both),
        call_ensures(apply, (true, false, fact), universe_alone),
        call_ensures(apply, (false, true, fact), project_alone),
        call_ensures(apply, (false, false, fact), neither),
    ensures
        both@ == universe_alone@ + project_alone@,
        universe_alone@ == seq![
            WatchStep::Graph(GraphStep::RecordChange(fact)),
            WatchStep::Graph(GraphStep::Wake),
        ],
        project_alone@ == seq![
            WatchStep::Graph(GraphStep::RecordForced(fact)),
            WatchStep::Graph(GraphStep::Wake),
            WatchStep::RefreshAdvisory,
        ],
        neither@.len() == 0,
{
    assert(both@ =~= universe_alone@ + project_alone@);
}

/// A loss is recorded under its own token and fact, its horizon read only for a loss with an
/// identity and only from a hub, and the config may have moved with it.
pub proof fn law_a_loss_is_recorded_under_its_own_token(
    token: Option<u64>,
    fact: u64,
    has_hub: bool,
    steps: Vec<WatchStep>,
)
    requires
        call_ensures(apply_rescan, (token, fact, has_hub), steps),
    ensures
        steps@ == seq![
            WatchStep::Graph(
                GraphStep::RecordLoss { token, fact, horizon: has_hub && token is Some },
            ),
            WatchStep::Graph(GraphStep::Wake),
            WatchStep::RefreshAdvisory,
        ],
{
}

/// A wait ends with the moment owed work comes due, and never lasts longer than thirty seconds; work
/// already due is not waited for, and without any the wait is the whole slice.
pub proof fn law_a_wait_ends_when_work_comes_due(wake_at: Option<u64>, now: u64, wait: u64)
    requires
        call_ensures(alarm_wait, (wake_at, now), wait),
    ensures
        wait <= 30_000_000_000,
        wake_at matches Some(due) ==> {
            &&& due <= now ==> wait == 0
            &&& now <= due && due - now <= 30_000_000_000 ==> now + wait == due
            &&& now <= due && due - now > 30_000_000_000 ==> wait == 30_000_000_000
        },
        wake_at is None ==> wait == 30_000_000_000,
{
}

/// The watcher leaves for a closing hub, its own stop or a lost workspace, and for nothing else; the
/// hub's word is the one that may not be asked for while the hub holds its own lock.
pub proof fn law_the_watcher_leaves_for_three_reasons(
    hub_closing: bool,
    stopped: bool,
    terminal: bool,
    leaves: bool,
    leaves_unasked: bool,
)
    requires
        call_ensures(must_leave, (hub_closing, stopped, terminal), leaves),
        call_ensures(leaves_without_asking_the_hub, (stopped, terminal), leaves_unasked),
    ensures
        leaves <==> hub_closing || stopped || terminal,
        leaves_unasked <==> stopped || terminal,
{
}

/// A watcher reads where the hub stands before it observes anything, and looks whether it must
/// leave before it waits for the hub.
pub proof fn law_a_watcher_begins_with_the_generation(
    begun: Watcher,
    generation: u64,
    settling: Watcher,
)
    requires
        call_ensures(Watcher::begin, (), begun),
        call_ensures(Watcher::reply, (begun, WatchReply::Generation(generation)), settling),
    ensures
        begun.ask is ReadGeneration,
        settling.generation == generation,
        settling.ask == WatchAsk::Leave(Checkpoint::Settling),
{
}

/// At every checkpoint a watcher that must leave stops, and one that stays goes on with what the
/// checkpoint stands before.
pub proof fn law_a_checkpoint_stops_or_goes_on(
    watcher: Watcher,
    checkpoint: Checkpoint,
    left: Watcher,
    stayed: Watcher,
)
    requires
        watcher.ask == WatchAsk::Leave(checkpoint),
        call_ensures(Watcher::reply, (watcher, WatchReply::Leave(true)), left),
        call_ensures(Watcher::reply, (watcher, WatchReply::Leave(false)), stayed),
    ensures
        left.generation == watcher.generation && stayed.generation == watcher.generation,
        left.ask is SetStopped,
        checkpoint is Settling ==> stayed.ask is AwaitReadiness,
        checkpoint is Observed ==> stayed.ask is SetRunning,
        checkpoint is Turn ==> stayed.ask is TakeAsk,
        checkpoint is Rung ==> stayed.ask is TakeContinuation,
        checkpoint is Waited ==> stayed.ask == (WatchAsk::Drain { first: false }),
{
}

/// Only a settled hub is observed; until it is, the watcher keeps looking whether it must leave.
pub proof fn law_a_hub_is_observed_once_settled(watcher: Watcher, settled: bool, next: Watcher)
    requires
        watcher.ask is AwaitReadiness,
        call_ensures(Watcher::reply, (watcher, WatchReply::Settled(settled)), next),
    ensures
        next.generation == watcher.generation,
        settled ==> next.ask == (WatchAsk::Drain { first: true }),
        !settled ==> next.ask == WatchAsk::Leave(Checkpoint::Settling),
{
}

/// The first observation records what was delivered and then, on every graph that is not idle, where
/// the stream stands; the advisory is brought up to date after both, and only then is the watcher
/// announced as running and takes its first turn.
pub proof fn law_the_first_observation_comes_before_running(
    drained: Watcher,
    idle: bool,
    looking: Watcher,
    looked: Watcher,
    leveled: Watcher,
    refreshed: Watcher,
)
    requires
        drained.ask == (WatchAsk::Drain { first: true }),
        call_ensures(Watcher::reply, (drained, WatchReply::Finished), looking),
        call_ensures(Watcher::reply, (looking, WatchReply::Idle(idle)), looked),
        looked.ask is ObserveLevel ==> call_ensures(
            Watcher::reply,
            (looked, WatchReply::Finished),
            leveled,
        ),
        looked.ask is RefreshAdvisory ==> leveled == looked,
        call_ensures(Watcher::reply, (leveled, WatchReply::Finished), refreshed),
    ensures
        looking.ask is ReadIdle,
        idle <==> looked.ask is RefreshAdvisory,
        !idle <==> looked.ask is ObserveLevel,
        leveled.ask is RefreshAdvisory,
        refreshed.ask == WatchAsk::Leave(Checkpoint::Observed),
        refreshed.generation == drained.generation,
{
}

/// A watcher that was announced takes its turn, and a turn answers the ask a request left, where one
/// did, before it drives everything owed but the first build.
pub proof fn law_a_turn_answers_the_ask_and_drives(
    running: Watcher,
    turning: Watcher,
    taking: Watcher,
    asked: bool,
    took: Watcher,
    driving: Watcher,
    rung: Watcher,
)
    requires
        running.ask is SetRunning,
        call_ensures(Watcher::reply, (running, WatchReply::Finished), turning),
        taking.ask is TakeAsk,
        call_ensures(Watcher::reply, (taking, WatchReply::Asked(asked)), took),
        took.ask is EnsureLoading ==> call_ensures(
            Watcher::reply,
            (took, WatchReply::Finished),
            driving,
        ),
        took.ask is DriveWithoutTheFirstBuild ==> driving == took,
        call_ensures(Watcher::reply, (driving, WatchReply::Finished), rung),
    ensures
        turning.ask == WatchAsk::Leave(Checkpoint::Turn) && turning.generation
            == running.generation,
        asked <==> took.ask is EnsureLoading,
        !asked <==> took.ask is DriveWithoutTheFirstBuild,
        driving.ask is DriveWithoutTheFirstBuild,
        rung.ask == WatchAsk::Leave(Checkpoint::Rung) && rung.generation == taking.generation,
{
}

/// The latch is taken before the counter is sampled. A latch makes the wait no wait at all; without
/// one it lasts until owed work comes due, thirty seconds at most. Either way it waits for anything
/// after the generation the watcher last saw and the alarms it sampled.
pub proof fn law_a_latch_shortens_the_wait_to_nothing(
    taking: Watcher,
    latched: bool,
    sampling: Watcher,
    alarms: u64,
    sampled: Watcher,
    wake_at: Option<u64>,
    now: u64,
    waiting: Watcher,
)
    requires
        taking.ask is TakeContinuation,
        call_ensures(Watcher::reply, (taking, WatchReply::Latched(latched)), sampling),
        call_ensures(Watcher::reply, (sampling, WatchReply::Alarms(alarms)), sampled),
        !latched ==> call_ensures(
            Watcher::reply,
            (sampled, WatchReply::Due { wake_at, now }),
            waiting,
        ),
    ensures
        latched ==> sampled.ask == (WatchAsk::Wait {
            generation: taking.generation,
            alarms,
            wait: 0,
        }) && sampled.generation == taking.generation,
        !latched ==> {
            &&& sampled.ask is ReadDue
            &&& waiting.generation == taking.generation
            &&& waiting.ask matches WatchAsk::Wait { generation, alarms: since, wait }
            &&& generation == taking.generation
            &&& since == alarms
            &&& wait <= 30_000_000_000
            &&& wake_at matches Some(due) ==> (due <= now ==> wait == 0) && (now <= due && due - now
                <= 30_000_000_000 ==> now + wait == due) && (due - now > 30_000_000_000 ==> wait
                == 30_000_000_000)
            &&& wake_at is None ==> wait == 30_000_000_000
        },
{
}

/// A wait comes back with the generation the next one starts from; what was delivered is drained
/// before the next turn.
pub proof fn law_a_wait_leads_to_a_drain_and_a_turn(
    waiting: Watcher,
    generation: u64,
    waited: Watcher,
    draining: Watcher,
    turning: Watcher,
)
    requires
        waiting.ask is Wait,
        call_ensures(Watcher::reply, (waiting, WatchReply::Generation(generation)), waited),
        draining.ask == (WatchAsk::Drain { first: false }),
        call_ensures(Watcher::reply, (draining, WatchReply::Finished), turning),
    ensures
        waited.generation == generation,
        waited.ask == WatchAsk::Leave(Checkpoint::Waited),
        turning.ask == WatchAsk::Leave(Checkpoint::Turn),
        turning.generation == draining.generation,
{
}

/// A watcher that stops gives its cursor back, then the comparison's, abandons the advisory, and
/// only then counts as gone.
pub proof fn law_a_stopping_watcher_gives_everything_back(
    stopping: Watcher,
    unsubscribing: Watcher,
    releasing: Watcher,
    abandoning: Watcher,
    leaving: Watcher,
    over: Watcher,
)
    requires
        stopping.ask is SetStopped,
        call_ensures(Watcher::reply, (stopping, WatchReply::Finished), unsubscribing),
        call_ensures(Watcher::reply, (unsubscribing, WatchReply::Finished), releasing),
        call_ensures(Watcher::reply, (releasing, WatchReply::Finished), abandoning),
        call_ensures(Watcher::reply, (abandoning, WatchReply::Finished), leaving),
        call_ensures(Watcher::reply, (leaving, WatchReply::Finished), over),
    ensures
        unsubscribing.ask is Unsubscribe,
        releasing.ask is ReleaseScanCursor,
        abandoning.ask is AbandonAdvisory,
        leaving.ask is LeaveOwners,
        over.ask is Done,
{
}

/// A watcher starts with a cursor of its own, reads as starting and counts as an owner before its
/// thread is asked for. With the thread the cursor is handed over.
pub proof fn law_a_watcher_starts_with_its_cursor(
    begun: WatcherStart,
    starting: WatcherStart,
    entering: WatcherStart,
    spawning: WatcherStart,
    handing: WatcherStart,
    over: WatcherStart,
)
    requires
        call_ensures(WatcherStart::begin, (), begun),
        call_ensures(WatcherStart::reply, (begun, StartReply::Subscribed(true)), starting),
        call_ensures(WatcherStart::reply, (starting, StartReply::Finished), entering),
        call_ensures(WatcherStart::reply, (entering, StartReply::Finished), spawning),
        call_ensures(WatcherStart::reply, (spawning, StartReply::Spawned(true)), handing),
        call_ensures(WatcherStart::reply, (handing, StartReply::Finished), over),
    ensures
        begun.ask is Subscribe,
        starting.ask is SetStarting,
        entering.ask is EnterOwners,
        spawning.ask is Spawn,
        handing.ask is HandOver,
        over.ask == (StartAsk::Done { started: true }),
{
}

/// A watcher that gets no cursor abandons the advisory and is over: there is nothing to give back.
pub proof fn law_a_watcher_without_a_cursor_never_began(
    begun: WatcherStart,
    abandoning: WatcherStart,
    over: WatcherStart,
)
    requires
        call_ensures(WatcherStart::begin, (), begun),
        call_ensures(WatcherStart::reply, (begun, StartReply::Subscribed(false)), abandoning),
        call_ensures(WatcherStart::reply, (abandoning, StartReply::Finished), over),
    ensures
        abandoning.ask is AbandonAdvisory,
        over.ask == (StartAsk::Done { started: false }),
{
}

/// A watcher that gets no thread abandons the advisory, counts as gone, reads as stopped and gives
/// its cursor back, in that order.
pub proof fn law_a_watcher_without_a_thread_takes_everything_back(
    spawning: WatcherStart,
    abandoning: WatcherStart,
    leaving: WatcherStart,
    stopping: WatcherStart,
    returning: WatcherStart,
    over: WatcherStart,
)
    requires
        spawning.ask is Spawn,
        call_ensures(WatcherStart::reply, (spawning, StartReply::Spawned(false)), abandoning),
        call_ensures(WatcherStart::reply, (abandoning, StartReply::Finished), leaving),
        call_ensures(WatcherStart::reply, (leaving, StartReply::Finished), stopping),
        call_ensures(WatcherStart::reply, (stopping, StartReply::Finished), returning),
        call_ensures(WatcherStart::reply, (returning, StartReply::Finished), over),
    ensures
        abandoning.ask is AbandonAdvisory,
        leaving.ask is LeaveOwners,
        stopping.ask is SetStopped,
        returning.ask is GiveBackCursor,
        over.ask == (StartAsk::Done { started: false }),
{
}

} // verus!
