use graph_state::advisory::{AdvisoryOwner, StandaloneNotice};
use graph_state::intake::GraphStep;
use graph_state::paths::{PathPart, SystemPath};
use graph_state::roots::{
    any_touches_universe, holds_path, is_workspace_config_path, project_roots, same_paths, EntryFacts,
    ProjectRoots,
};
use graph_state::watcher::{
    alarm_wait, drain, leaves_without_asking_the_hub, must_leave, Batch, Checkpoint, StartAsk,
    StartReply, WatchAsk, WatchReply, WatchStep, Watcher, WatcherStart, READINESS_SLICE, WAIT_SLICE,
};

const STAY: WatchReply = WatchReply::Leave(false);
const GO: WatchReply = WatchReply::Leave(true);
const DID: WatchReply = WatchReply::Finished;

/// What the watcher asked for, in order, under these answers.
fn asked(replies: &[WatchReply]) -> Vec<WatchAsk> {
    let mut watcher = Watcher::begin();
    let mut asks = vec![watcher.ask];
    for reply in replies {
        watcher = watcher.reply(*reply);
        asks.push(watcher.ask);
    }
    asks
}

/// The first observation of a quiet hub, over an idle graph.
fn quiet_start() -> Vec<WatchReply> {
    vec![
        WatchReply::Generation(3),
        STAY,
        WatchReply::Settled(true),
        DID,
        WatchReply::Idle(true),
        DID,
        STAY,
        DID,
    ]
}

#[test]
fn a_quiet_start_completes_the_first_observation() {
    assert_eq!(
        asked(&quiet_start()),
        vec![
            WatchAsk::ReadGeneration,
            WatchAsk::Leave(Checkpoint::Settling),
            WatchAsk::AwaitReadiness,
            WatchAsk::Drain { first: true },
            WatchAsk::ReadIdle,
            WatchAsk::RefreshAdvisory,
            WatchAsk::Leave(Checkpoint::Observed),
            WatchAsk::SetRunning,
            WatchAsk::Leave(Checkpoint::Turn),
        ],
    );
}

#[test]
fn a_build_under_way_is_told_where_the_stream_stands() {
    let replies = [
        WatchReply::Generation(3),
        STAY,
        WatchReply::Settled(false),
        STAY,
        WatchReply::Settled(true),
        DID,
        WatchReply::Idle(false),
        DID,
    ];
    let asks = asked(&replies);
    assert_eq!(asks[3], WatchAsk::Leave(Checkpoint::Settling), "a wait that ran out comes up");
    assert_eq!(asks[7], WatchAsk::ObserveLevel);
    assert_eq!(asks[8], WatchAsk::RefreshAdvisory);
}

#[test]
fn the_watcher_answers_a_first_build_a_request_asked_for() {
    let mut replies = quiet_start();
    replies.extend([STAY, WatchReply::Asked(true), DID, DID, STAY, WatchReply::Latched(true)]);
    let asks = asked(&replies);
    assert_eq!(
        asks[9..],
        [
            WatchAsk::TakeAsk,
            WatchAsk::EnsureLoading,
            WatchAsk::DriveWithoutTheFirstBuild,
            WatchAsk::Leave(Checkpoint::Rung),
            WatchAsk::TakeContinuation,
            WatchAsk::SampleAlarms { continuing: true },
        ],
    );
}

/// A latch shortens the wait to nothing and does not step over the drain.
#[test]
fn a_latched_turn_still_drains() {
    let mut replies = quiet_start();
    replies.extend([
        STAY,
        WatchReply::Asked(false),
        DID,
        STAY,
        WatchReply::Latched(true),
        WatchReply::Alarms(8),
        WatchReply::Generation(5),
        STAY,
        DID,
    ]);
    let asks = asked(&replies);
    assert_eq!(
        asks[14..],
        [
            WatchAsk::Wait { generation: 3, alarms: 8, wait: 0 },
            WatchAsk::Leave(Checkpoint::Waited),
            WatchAsk::Drain { first: false },
            WatchAsk::Leave(Checkpoint::Turn),
        ],
    );
}

/// Each wait starts from the generation the last one came back with.
#[test]
fn a_wait_starts_where_the_last_one_ended() {
    let mut replies = quiet_start();
    let turn = [
        STAY,
        WatchReply::Asked(false),
        DID,
        STAY,
        WatchReply::Latched(false),
        WatchReply::Alarms(8),
        WatchReply::Due { wake_at: Some(10), now: 4 },
    ];
    replies.extend(turn);
    replies.extend([WatchReply::Generation(5), STAY, DID]);
    replies.extend(turn);
    let waits: Vec<WatchAsk> =
        asked(&replies).into_iter().filter(|ask| matches!(ask, WatchAsk::Wait { .. })).collect();
    assert_eq!(
        waits,
        vec![
            WatchAsk::Wait { generation: 3, alarms: 8, wait: 6 },
            WatchAsk::Wait { generation: 5, alarms: 8, wait: 6 },
        ],
    );
}

#[test]
fn the_observation_takes_the_comparison_cursor_with_it() {
    let mut early = vec![WatchReply::Generation(3), GO, DID, DID, DID, DID, DID];
    let ending = [
        WatchAsk::SetStopped,
        WatchAsk::Unsubscribe,
        WatchAsk::ReleaseScanCursor,
        WatchAsk::AbandonAdvisory,
        WatchAsk::LeaveOwners,
        WatchAsk::Done,
    ];
    assert_eq!(asked(&early)[2..], ending);
    early = quiet_start();
    early.extend([GO, DID, DID, DID, DID, DID]);
    assert_eq!(asked(&early)[9..], ending);
}

#[test]
fn the_alarm_is_the_slice_or_the_owed_work() {
    assert_eq!(WAIT_SLICE, 30 * 1_000_000_000);
    assert_eq!(READINESS_SLICE, 1_000_000_000);
    assert_eq!(alarm_wait(None, 5), WAIT_SLICE);
    assert_eq!(alarm_wait(Some(12), 5), 7);
    assert_eq!(alarm_wait(Some(5), 12), 0);
    assert_eq!(alarm_wait(Some(WAIT_SLICE + 5), 5), WAIT_SLICE);
    assert_eq!(alarm_wait(Some(u64::MAX), 5), WAIT_SLICE);
}

#[test]
fn the_watcher_leaves_for_each_of_its_reasons() {
    assert!(!must_leave(false, false, false));
    assert!(must_leave(true, false, false));
    assert!(must_leave(false, true, false));
    assert!(must_leave(false, false, true));
    assert!(!leaves_without_asking_the_hub(false, false));
    assert!(leaves_without_asking_the_hub(true, false));
    assert!(leaves_without_asking_the_hub(false, true));
}

fn batch() -> Batch {
    Batch {
        fact: 6,
        rescan_required: false,
        loss_token: None,
        has_entries: false,
        universe: false,
        project: false,
    }
}

fn recorded(entry: GraphStep) -> Vec<WatchStep> {
    vec![WatchStep::Graph(entry), WatchStep::Graph(GraphStep::Wake)]
}

#[test]
fn a_reconcile_owes_a_project_reload_in_every_live_state() {
    let lost = GraphStep::RecordLoss { token: Some(2), fact: 6, horizon: true };
    let mut expected = recorded(lost);
    expected.extend([WatchStep::RefreshAdvisory, WatchStep::Acknowledge]);
    let loss = Batch { rescan_required: true, loss_token: Some(2), has_entries: true, ..batch() };
    assert_eq!(drain(loss, true), expected);
}

#[test]
fn a_batch_is_recorded_for_what_it_touches() {
    assert_eq!(drain(batch(), true), vec![WatchStep::Acknowledge]);
    let noise = Batch { has_entries: true, ..batch() };
    assert_eq!(drain(noise, true), vec![WatchStep::Acknowledge]);
    let body = Batch { has_entries: true, universe: true, ..batch() };
    let mut expected = recorded(GraphStep::RecordChange(6));
    expected.push(WatchStep::Acknowledge);
    assert_eq!(drain(body, true), expected);
    let config = Batch { has_entries: true, universe: true, project: true, ..batch() };
    let mut expected = recorded(GraphStep::RecordChange(6));
    expected.extend(recorded(GraphStep::RecordForced(6)));
    expected.extend([WatchStep::RefreshAdvisory, WatchStep::Acknowledge]);
    assert_eq!(drain(config, true), expected);
}

/// What the start of a watcher asked for, in order, under these answers.
fn started(replies: &[StartReply]) -> Vec<StartAsk> {
    let mut start = WatcherStart::begin();
    let mut asks = vec![start.ask];
    for reply in replies {
        start = start.reply(*reply);
        asks.push(start.ask);
    }
    asks
}

#[test]
fn a_watcher_starts_or_says_that_it_did_not() {
    let did = StartReply::Finished;
    let subscribed = StartReply::Subscribed(true);
    assert_eq!(
        started(&[StartReply::Subscribed(false), did]),
        vec![
            StartAsk::Subscribe,
            StartAsk::AbandonAdvisory { subscribed: false },
            StartAsk::Done { started: false },
        ],
        "a start without a cursor has none to give back",
    );
    assert_eq!(
        started(&[subscribed, did, did, StartReply::Spawned(true), did]),
        vec![
            StartAsk::Subscribe,
            StartAsk::SetStarting,
            StartAsk::EnterOwners,
            StartAsk::Spawn,
            StartAsk::HandOver,
            StartAsk::Done { started: true },
        ],
    );
}

/// A thread that could not be had leaves nothing behind: no cursor, no owner, no kept advisory.
#[test]
fn a_failed_spawn_gives_the_cursor_back() {
    let did = StartReply::Finished;
    let subscribed = StartReply::Subscribed(true);
    assert_eq!(
        started(&[subscribed, did, did, StartReply::Spawned(false), did, did, did, did])[3..],
        [
            StartAsk::Spawn,
            StartAsk::AbandonAdvisory { subscribed: true },
            StartAsk::LeaveOwners,
            StartAsk::SetStopped,
            StartAsk::GiveBackCursor,
            StartAsk::Done { started: false },
        ],
    );
}

#[test]
fn an_advisory_nobody_keeps_current_says_so() {
    let notice = || StandaloneNotice::Kept(Some("анализируется без основной конфигурации".to_owned()));
    let mut owner = AdvisoryOwner { slot: Some(notice()) };
    owner.leave();
    assert_ne!(owner.slot, Some(notice()), "the slot still claims someone keeps it current");
    assert_eq!(owner.slot, Some(StandaloneNotice::Abandoned));
}

#[test]
fn an_advisory_is_refreshed_where_there_is_one() {
    let mut owner = AdvisoryOwner { slot: Some(StandaloneNotice::Kept(None)) };
    owner.refresh(|| Some("новое".to_owned()));
    assert_eq!(owner.slot, Some(StandaloneNotice::Kept(Some("новое".to_owned()))));
    owner.refresh(|| None);
    assert_eq!(owner.slot, Some(StandaloneNotice::Kept(None)));
    let mut nobody = AdvisoryOwner { slot: None };
    nobody.refresh(|| unreachable!());
    nobody.leave();
    assert_eq!(nobody.slot, None);
}

/// A path as the system takes it apart.
fn path(spelled: &[u8]) -> SystemPath {
    let parts = match std::str::from_utf8(spelled) {
        Ok(text) => std::path::Path::new(text)
            .components()
            .map(|part| match part {
                std::path::Component::Prefix(prefix) => {
                    PathPart::Prefix(prefix.as_os_str().as_encoded_bytes().to_vec())
                }
                std::path::Component::RootDir => PathPart::Root,
                std::path::Component::CurDir => PathPart::Here,
                std::path::Component::ParentDir => PathPart::Above,
                std::path::Component::Normal(name) => {
                    PathPart::Name(name.as_encoded_bytes().to_vec())
                }
            })
            .collect(),
        Err(_) => vec![PathPart::Root, PathPart::Name(spelled.to_vec())],
    };
    SystemPath { spelled: spelled.to_vec(), parts }
}

fn paths(names: &[&str]) -> Vec<SystemPath> {
    names.iter().map(|name| path(name.as_bytes())).collect()
}

fn config_path<C: Fn(&SystemPath) -> Option<SystemPath>>(
    root: Option<&[u8]>,
    input_name: bool,
    parent: Option<&[u8]>,
    canonical: C,
) -> bool {
    let (root, parent) = (root.map(path), parent.map(path));
    is_workspace_config_path(root.as_ref(), input_name, parent.as_ref(), canonical)
}

fn detected(root: &[u8], parent: &[u8]) -> bool {
    config_path(Some(root), true, Some(parent), |_: &SystemPath| None)
}

#[test]
fn project_config_detection_is_exactly_workspace_root_level() {
    assert!(detected(b"/ws", b"/ws"));
    assert!(!detected(b"/ws", b"/ws/nested"));
    assert!(!detected(b"/ws", b"/ws.other"), "a sibling is not the workspace");
    // Another spelling of the root is the root.
    let resolves = |dir: &SystemPath| (dir.spelled == b"/link").then(|| path(b"/ws"));
    assert!(config_path(Some(b"/ws"), true, Some(b"/link"), resolves));
    assert!(config_path(Some(b"/link"), true, Some(b"/ws"), resolves));
    assert!(!config_path(Some(b"/other"), true, Some(b"/link"), resolves));
    // Another name, a path without a parent and a graph without a workspace are none.
    assert!(!config_path(Some(b"/ws"), false, Some(b"/ws"), resolves));
    assert!(!config_path(Some(b"/ws"), true, None, resolves));
    assert!(!config_path(None, true, Some(b"/ws"), resolves));
}

/// A spelling that differs in slashes and `.` parts alone is of the same path, and nobody is asked
/// to resolve it.
#[test]
fn a_config_file_is_found_under_every_spelling_of_the_root() {
    let unasked = |_: &SystemPath| -> Option<SystemPath> { unreachable!() };
    for root in [&b"/ws/"[..], b"//ws", b"/./ws", b"/ws/.", b"/ws//."] {
        assert!(config_path(Some(root), true, Some(b"/ws"), unasked));
        assert!(config_path(Some(b"/ws"), true, Some(root), unasked));
    }
    assert!(!config_path(Some(b"/ws/"), false, Some(b"/ws"), unasked));
    assert!(!config_path(Some(b"/ws/"), true, None, unasked));
    // `..` is resolved by the system alone, and what it resolves to compares the same way.
    assert!(!detected(b"/ws", b"/ws/a/.."));
    let resolves = |dir: &SystemPath| (dir.spelled == b"/ws/a/..").then(|| path(b"/ws/"));
    assert!(config_path(Some(b"/ws"), true, Some(b"/ws/a/.."), resolves));
}

#[test]
fn roots_compare_as_sets() {
    let roots = project_roots(&paths(&["/ws/b", "/ws", "/ws/b", "/ws/a"]));
    assert_eq!(roots, paths(&["/ws", "/ws/a", "/ws/b"]));
    assert_eq!(roots, project_roots(&paths(&["/ws/a", "/ws/b", "/ws"])));
    assert!(project_roots(&Vec::new()).is_empty());
    assert!(holds_path(&roots, &path(b"/ws/a")) && !holds_path(&roots, &path(b"/ws/c")));
    assert!(same_paths(&roots, &roots) && !same_paths(&roots, &paths(&["/ws", "/ws/a"])));
}

#[test]
fn roots_compare_by_their_components() {
    let roots = project_roots(&paths(&["/ws/b/", "/ws//b", "/ws-old", "/ws/./b", "/ws"]));
    assert_eq!(roots, paths(&["/ws", "/ws/b/", "/ws-old"]), "the first spelling is kept");
    assert!(same_paths(&roots, &paths(&["/ws/", "/ws/b", "//ws-old/."])));
    assert!(holds_path(&roots, &path(b"/ws/b/.")) && !holds_path(&roots, &path(b"ws/b")));
    // The descriptor of a root is one under every spelling of the directory it lies in.
    let declared = || paths(&["/ws/", "/ws/b"]);
    let mut known = ProjectRoots { known: paths(&["/ws", "/ws/b/"]) };
    assert!(!known.is_project_input(&descriptor("/ws/dump"), &declared), "the roots are the same");
    assert!(known.is_project_input(&descriptor("/ws//b"), &declared));
}

fn descriptor(parent: &str) -> EntryFacts {
    EntryFacts {
        config: false,
        descriptor: true,
        parents: paths(&[parent, parent]),
        universe: true,
    }
}

#[test]
fn only_a_descriptor_of_this_project_forces_a_reload() {
    // Declared extensions, and a dump nobody declared.
    let declared = || paths(&["/ws", "/ws/ext/a", "/ws/ext/b"]);
    let mut known = ProjectRoots { known: project_roots(&declared()) };
    assert!(
        !known.is_project_input(&descriptor("/ws/dump"), &declared),
        "an exported dump's descriptor forced a project reload",
    );
    assert!(
        known.is_project_input(&descriptor("/ws"), &declared),
        "the base root's descriptor must force a reload",
    );
    assert!(
        known.is_project_input(&descriptor("/ws/ext/a"), &declared),
        "a declared extension's descriptor must force a reload",
    );

    // Discovered extensions, including one that appears while the watcher runs.
    let discovered = || paths(&["/ws", "/ws/cfe/Existing"]);
    let mut known = ProjectRoots { known: project_roots(&discovered()) };
    assert!(
        known.is_project_input(&descriptor("/ws/cfe/Existing"), &discovered),
        "a discovered extension's descriptor must force a reload",
    );
    let appeared = || paths(&["/ws/cfe/New", "/ws", "/ws/cfe/Existing"]);
    assert!(
        known.is_project_input(&descriptor("/ws/cfe/New"), &appeared),
        "a descriptor that turns a directory into an extension must force a reload",
    );
    assert_eq!(known.known, paths(&["/ws", "/ws/cfe/Existing", "/ws/cfe/New"]));
    // A root that went away counts wherever the descriptor lies.
    assert!(known.is_project_input(&descriptor("/ws/dump"), &discovered));
}

#[test]
fn a_config_file_counts_and_an_ordinary_one_does_not() {
    let unasked = || -> Vec<SystemPath> { unreachable!() };
    let mut known = ProjectRoots { known: paths(&["/ws"]) };
    let config = EntryFacts { config: true, ..descriptor("/elsewhere") };
    assert!(known.is_project_input(&config, &unasked));
    let body = EntryFacts { descriptor: false, ..descriptor("/ws") };
    assert!(!known.is_project_input(&body, &unasked));
    assert_eq!(known.known, paths(&["/ws"]));
}

/// A batch is measured in its order, up to the first entry that is an input of the project.
#[test]
fn a_batch_is_an_input_where_one_of_its_entries_is() {
    let asked = std::cell::Cell::new(0);
    let declared = || {
        asked.set(asked.get() + 1);
        paths(&["/ws"])
    };
    let body = || EntryFacts { descriptor: false, universe: true, ..descriptor("/ws") };
    let dump = || EntryFacts { universe: false, ..descriptor("/ws/dump") };
    let mut known = ProjectRoots { known: paths(&["/ws"]) };
    assert!(!known.any_project_input(&vec![body(), dump(), body()], &declared));
    assert_eq!(asked.get(), 1, "the roots are asked for a descriptor only");
    assert!(known.any_project_input(&vec![dump(), descriptor("/ws"), dump()], &declared));
    assert_eq!(asked.get(), 3, "what is behind the first input is not looked at");
    let config = EntryFacts { config: true, ..descriptor("/elsewhere") };
    assert!(known.any_project_input(&vec![body(), config], &declared));
    assert!(!known.any_project_input(&Vec::new(), &declared));
    assert!(any_touches_universe(&vec![dump(), body()]));
    assert!(!any_touches_universe(&vec![dump(), dump()]));
    assert!(!any_touches_universe(&Vec::new()));
}
