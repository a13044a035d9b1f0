use graph_state::paths::{PathPart, SystemPath};
use graph_state::universe::{
    bsl_files_from, file_stats_from, file_stats_with_content_errors, FileId, FileKey, FileRole,
    FileStat, ScanVerdict, ScannedUniverse, SourceSet, WalkedFile,
};
use std::collections::HashSet;

/// A path as the system takes it apart.
fn path(spelled: &[u8]) -> SystemPath {
    let parts = match std::str::from_utf8(spelled) {
        Ok(text) => std::path::Path::new(text)
            .components()
            .map(|part| match part {
                std::path::Component::Prefix(prefix) => {
                    PathPart::Prefix(prefix.as_os_str().as_encoded_bytes().to_vec())
                }
                std::path::Component::RootDir => PathPart::Root,
                std::path::Component::CurDir => PathPart::Here,
                std::path::Component::ParentDir => PathPart::Above,
                std::path::Component::Normal(name) => {
                    PathPart::Name(name.as_encoded_bytes().to_vec())
                }
            })
            .collect(),
        Err(_) => vec![PathPart::Root, PathPart::Name(spelled.to_vec())],
    };
    SystemPath { spelled: spelled.to_vec(), parts }
}

fn empty_set() -> SourceSet {
    SourceSet { files: Vec::new(), unreadable: 0, canonical_fallbacks: 0, loops: 0, dangling: 0 }
}

fn walked(role: FileRole, name: &[u8], len: u64) -> WalkedFile {
    WalkedFile {
        root: b"/ws".to_vec(),
        role,
        walked: [b"/ws/", name].concat(),
        canonical: path(&[b"/ws/", name].concat()),
        modified: Some(5),
        len,
    }
}

fn set_of(files: Vec<WalkedFile>) -> SourceSet {
    SourceSet { files, ..empty_set() }
}

fn nothing(_: &WalkedFile) -> Option<Vec<u8>> {
    Some(Vec::new())
}

/// Both counters reach the verdict, each answering its own question.
#[test]
fn the_verdict_carries_both_counters_apart() {
    let hidden = SourceSet { unreadable: 1, ..empty_set() };
    let verdict = ScanVerdict::of(&hidden);
    assert!(!verdict.coverage_complete(), "a subtree stayed unread");
    assert!(verdict.identity_exact(), "but every listed file kept its physical spelling");
    assert!(!verdict.clean());

    let degraded = SourceSet { canonical_fallbacks: 1, ..empty_set() };
    let verdict = ScanVerdict::of(&degraded);
    assert!(verdict.coverage_complete(), "the walk reached everything");
    assert!(!verdict.identity_exact(), "yet one file's key is a walked spelling");
    assert!(!verdict.clean());

    let both = SourceSet { unreadable: 2, canonical_fallbacks: 3, ..empty_set() };
    assert_eq!(
        ScanVerdict::of(&both),
        ScanVerdict::for_test(2, 3),
        "neither counter is derived from the other",
    );

    // Loops and dangling links leave coverage complete.
    let benign = SourceSet { loops: 4, dangling: 5, ..empty_set() };
    assert!(ScanVerdict::of(&benign).clean());
}

#[test]
fn an_unreadable_content_is_never_clean() {
    let verdict = ScanVerdict::of(&empty_set());
    assert!(verdict.clean());
    assert!(!verdict.with_content_unreadable(1).clean());
    assert!(verdict.with_content_unreadable(1).coverage_complete());
    assert!(verdict.with_content_unreadable(1).with_content_unreadable(0).clean());
}

#[test]
fn the_enumeration_projection_matches_an_independent_reference() {
    let set = set_of(vec![
        walked(FileRole::Source, b"Catalogs/C/Ext/ObjectModule.bsl", 0),
        walked(FileRole::Source, b"CommonModules/M/Ext/Module.bsl", 0),
        walked(FileRole::Metadata, b"Configuration.xml", 4),
        walked(FileRole::Ignored, b"README.md", 0),
    ]);
    let mut projected: Vec<Vec<u8>> = bsl_files_from(&set).into_iter().map(|(_, p)| p.spelled).collect();
    projected.sort();

    let mut seen: HashSet<Vec<u8>> = HashSet::new();
    let mut reference: Vec<Vec<u8>> = Vec::new();
    for file in &set.files {
        if file.canonical.spelled.ends_with(b".bsl") && seen.insert(file.canonical.spelled.clone()) {
            reference.push(file.canonical.spelled.clone());
        }
    }
    reference.sort();
    assert_eq!(projected, reference);
    assert_eq!(projected.len(), 2);
}

#[test]
fn the_enumeration_projection_matches_the_reference_through_links() {
    let mut alias = walked(FileRole::Source, b"root/Alias.bsl", 0);
    alias.canonical = path(b"/ws/tree/M.bsl");
    let mut linked = walked(FileRole::Source, b"root/Linked/M.bsl", 0);
    linked.canonical = path(b"/ws/tree/M.bsl");
    let set = set_of(vec![alias, linked, walked(FileRole::Source, b"root/Own.bsl", 0)]);

    assert_eq!(
        bsl_files_from(&set),
        vec![
            (FileId(0), path(b"/ws/tree/M.bsl")),
            (FileId(1), path(b"/ws/root/Own.bsl")),
        ],
    );
}

#[test]
fn a_case_variant_spelling_is_in_both_projections() {
    let set = set_of(vec![
        walked(FileRole::Source, b"Lower.bsl", 0),
        walked(FileRole::Metadata, b"Meta.XML", 4),
        walked(FileRole::Source, b"Upper.BSL", 0),
    ]);
    // The projections take the role the walk gave a file, with no second narrowing.
    assert_eq!(set.files.len(), 3, "the shared walker is case-insensitive");
    let bsl: Vec<Vec<u8>> = bsl_files_from(&set).into_iter().map(|(_, p)| p.spelled).collect();
    assert_eq!(bsl.len(), 2);
    let (stats, unreadable) = file_stats_with_content_errors(&set, nothing);
    assert_eq!(stats.len(), 3, "оба .bsl и .XML — вся вселенная в статах");
    assert_eq!(unreadable, 0);
}

#[test]
fn both_projections_come_from_the_one_scan_not_from_disk() {
    let kept = || walked(FileRole::Source, b"Kept.bsl", 0);
    let set = set_of(vec![walked(FileRole::Source, b"Doomed.bsl", 0), kept()]);

    // The file is gone by the time its content is asked for; the set still lists it.
    let gone = |file: &WalkedFile| {
        if file.canonical.spelled.ends_with(b"Doomed.bsl") {
            None
        } else {
            Some(Vec::new())
        }
    };
    let bsl = bsl_files_from(&set);
    let (stats, unreadable) = file_stats_with_content_errors(&set, gone);
    assert_eq!(bsl.len(), 2);
    assert_eq!(stats.len(), 2);
    assert_eq!(unreadable, 1);
    let bsl_paths: HashSet<String> =
        bsl.iter().map(|(_, p)| String::from_utf8(p.spelled.clone()).unwrap()).collect();
    let stat_paths: HashSet<String> = stats.iter().map(|s| s.path.clone()).collect();
    assert_eq!(bsl_paths, stat_paths, "one universe, two shapes");

    let fresh = set_of(vec![kept()]);
    assert_eq!(bsl_files_from(&fresh).len(), 1, "a fresh scan does see the deletion");
}

#[test]
fn a_lossy_collision_keeps_the_projections_on_their_own_keys() {
    let set = set_of(vec![
        walked(FileRole::Source, b"\x80.bsl", 1),
        walked(FileRole::Source, b"\x81.bsl", 2),
    ]);
    let bsl = bsl_files_from(&set);
    assert_eq!(bsl.len(), 2, "enumeration keys by path: both files stay");
    assert_ne!(bsl[0].1, bsl[1].1, "and on their own keys, not one key twice");
    let stats = file_stats_from(&set, nothing);
    assert_eq!(stats.len(), 1, "stats key by the lossy string: the rows collapse");
    assert_eq!(stats[0].len, 1, "the surviving row must be the first-listed file's");
    assert_eq!(stats[0].path, "/ws/\u{fffd}.bsl");
}

#[test]
fn a_row_says_what_the_walk_saw() {
    let mut early = walked(FileRole::Metadata, b"Early.xml", 7);
    early.modified = Some(-1);
    let mut unknown = walked(FileRole::Metadata, b"Unknown.xml", 8);
    unknown.modified = None;
    let mut linked = walked(FileRole::Source, b"Linked.bsl", 9);
    linked.canonical = path(b"/elsewhere/M.bsl");
    linked.modified = Some(1_700_000_000_000_000_000);
    let set = set_of(vec![early, unknown, linked]);

    let read = |file: &WalkedFile| {
        if file.len == 9 {
            Some(b"abc".to_vec())
        } else {
            None
        }
    };
    let (stats, unreadable) = file_stats_with_content_errors(&set, read);
    assert_eq!(unreadable, 2);
    assert_eq!(stats[0].mtime, 0);
    assert_eq!(stats[1].mtime, 0);
    assert_eq!(stats[0].content_hash, None);
    assert_eq!(
        stats[2],
        FileStat {
            path: "/elsewhere/M.bsl".to_owned(),
            canonical: path(b"/elsewhere/M.bsl"),
            walked: b"/ws/Linked.bsl".to_vec(),
            mtime: 1_700_000_000_000_000_000,
            len: 9,
            content_hash: Some(*blake3::hash(b"abc").as_bytes()),
        },
    );
    let hex: String =
        stats[2].content_hash.unwrap().iter().map(|byte| format!("{byte:02x}")).collect();
    assert_eq!(hex, "6437b3ac38465133ffb63b75273a8db548c558465d79db03fd359c6cd5bd9d85");
}

#[test]
fn only_files_with_a_row_are_read() {
    let set = set_of(vec![
        walked(FileRole::Ignored, b"README.md", 1),
        walked(FileRole::Source, b"\x80.bsl", 1),
        walked(FileRole::Source, b"\x81.bsl", 2),
    ]);
    let asked = std::cell::RefCell::new(Vec::new());
    let (stats, _) = file_stats_with_content_errors(&set, |file: &WalkedFile| {
        asked.borrow_mut().push(file.canonical.spelled.clone());
        Some(Vec::new())
    });
    assert_eq!(stats.len(), 1);
    assert_eq!(*asked.borrow(), vec![b"/ws/\x80.bsl".to_vec()]);
}

fn linked_universe() -> ScannedUniverse {
    let mut linked = walked(FileRole::Source, b"root\\Linked.bsl", 9);
    linked.canonical = path(b"/elsewhere/M.bsl");
    let set = set_of(vec![walked(FileRole::Metadata, b"a\\b.xml", 1), linked]);
    ScannedUniverse::of(&set, nothing)
}

#[test]
fn a_canonical_path_leads_to_its_walked_spelling() {
    let universe = linked_universe();
    assert!(universe.clean());
    assert_eq!(universe.files().len(), 1);
    assert_eq!(universe.stats().len(), 2);
    assert_eq!(
        universe.walked_path_for(&path(b"/elsewhere/M.bsl")),
        Some(b"/ws/root\\Linked.bsl".as_slice()),
    );
    assert_eq!(universe.walked_path_for(&path(b"/ws/root\\Linked.bsl")), None);

    let key = universe.key_for_path(&path(b"/elsewhere/M.bsl"), |walked, canonical| {
        assert_eq!(walked, b"/ws/root\\Linked.bsl");
        assert_eq!(canonical, &path(b"/elsewhere/M.bsl"));
        Some(FileKey(7))
    });
    assert_eq!(key, Some(FileKey(7)));
    assert_eq!(universe.key_for_path(&path(b"/nowhere"), |_, _| unreachable!()), None);
}

fn spelled(canonical: &[u8], spelling: &[u8]) -> WalkedFile {
    WalkedFile {
        canonical: path(canonical),
        walked: spelling.to_vec(),
        ..walked(FileRole::Source, b"m", 1)
    }
}

/// The enumeration keys by the path, the stats by the string: two spellings of one path are one
/// module and two rows, and the path leads to the later row.
#[test]
fn two_spellings_of_one_path_are_one_module() {
    let set = set_of(vec![
        spelled(b"/t//a.bsl", b"/first/a.bsl"),
        spelled(b"/t/b.bsl", b"/t/b.bsl"),
        spelled(b"/t/./a.bsl", b"/second/a.bsl"),
    ]);
    assert_eq!(
        bsl_files_from(&set),
        vec![(FileId(0), path(b"/t//a.bsl")), (FileId(1), path(b"/t/b.bsl"))],
    );
    let universe = ScannedUniverse::of(&set, nothing);
    assert_eq!(universe.stats().len(), 3);
    for asked in [&b"/t/a.bsl"[..], b"/t//a.bsl", b"/t/./a.bsl", b"/t/a.bsl/"] {
        assert_eq!(universe.walked_path_for(&path(asked)), Some(&b"/second/a.bsl"[..]));
    }
    assert_eq!(universe.walked_path_for(&path(b"t/a.bsl")), None);
    let key = universe.key_for_path(&path(b"/t/a.bsl"), |walked, canonical| {
        assert_eq!((walked, canonical), (&b"/second/a.bsl"[..], &path(b"/t/a.bsl")));
        Some(FileKey(3))
    });
    assert_eq!(key, Some(FileKey(3)));
}

#[test]
fn every_row_is_found_under_its_spellings() {
    let universe = linked_universe();
    // Each row's key, by its own file.
    let keyed = |stat: &FileStat| Some(FileKey(if stat.len == 9 { 2 } else { 1 }));
    let aliases = universe.file_key_aliases(keyed).unwrap();
    assert_eq!(aliases.get("/ws/a\\b.xml"), Some(&FileKey(1)));
    assert_eq!(aliases.get("/ws/a/b.xml"), Some(&FileKey(1)));
    assert_eq!(aliases.get("/elsewhere/M.bsl"), Some(&FileKey(2)));
    assert_eq!(aliases.get("/ws/root/Linked.bsl"), Some(&FileKey(2)));
    assert_eq!(aliases.get("/ws/root\\Linked.bsl"), None);
    assert_eq!(aliases.len(), 4);
    // A row without a key leaves nothing to expose, and the rows behind it are not asked.
    let asked = std::cell::Cell::new(0);
    let unkeyed = |_: &FileStat| {
        asked.set(asked.get() + 1);
        None
    };
    assert!(universe.file_key_aliases(unkeyed).is_none());
    assert_eq!(asked.get(), 1);
    let second = |stat: &FileStat| (stat.len != 9).then_some(FileKey(1));
    assert!(universe.file_key_aliases(second).is_none());
}

#[test]
fn an_unread_file_keeps_the_universe_dirty() {
    let set = set_of(vec![walked(FileRole::Source, b"M.bsl", 1)]);
    assert!(ScannedUniverse::of(&set, nothing).clean());
    assert!(!ScannedUniverse::of(&set, |_: &WalkedFile| None).clean());
    let hidden = SourceSet { unreadable: 1, ..empty_set() };
    assert!(!ScannedUniverse::of(&hidden, nothing).clean());
    let respelled = SourceSet { canonical_fallbacks: 1, ..empty_set() };
    assert!(!ScannedUniverse::of(&respelled, nothing).clean());
}
